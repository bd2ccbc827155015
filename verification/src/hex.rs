//! Hexadecimal text: digits, fixed-width groups, and groups joined by a
//! separator.

use vstd::prelude::*;

verus! {

/// The sixteen hexadecimal digits in lower case, by value.
pub const HEX_LOWER: &'static str = "0123456789abcdef";

/// The sixteen hexadecimal digits in upper case, by value.
pub const HEX_UPPER: &'static str = "0123456789ABCDEF";

/// The two lower-case hexadecimal digits of `b`, high digit first.
pub open spec fn hex2_lower(b: u8) -> Seq<char> {
    seq![HEX_LOWER@[b as int / 16], HEX_LOWER@[b as int % 16]]
}

/// The four upper-case hexadecimal digits of `q`, highest digit first.
pub open spec fn hex4_upper(q: u16) -> Seq<char> {
    seq![
        HEX_UPPER@[q as int / 4096],
        HEX_UPPER@[q as int / 256 % 16],
        HEX_UPPER@[q as int / 16 % 16],
        HEX_UPPER@[q as int % 16],
    ]
}

/// The parts in order, with `sep` between each two neighbours. No separator
/// stands before the first part or after the last.
pub open spec fn join(parts: Seq<Seq<char>>, sep: Seq<char>) -> Seq<char>
    decreases parts.len(),
{
    if parts.len() == 0 {
        Seq::empty()
    } else if parts.len() == 1 {
        parts[0]
    } else {
        join(parts.drop_last(), sep) + sep + parts.last()
    }
}

/// Each octet as two lower-case hexadecimal digits.
pub open spec fn octet_groups(octets: Seq<u8>) -> Seq<Seq<char>> {
    octets.map_values(|b: u8| hex2_lower(b))
}

/// Each quad as four upper-case hexadecimal digits.
pub open spec fn quad_groups(quads: Seq<u16>) -> Seq<Seq<char>> {
    quads.map_values(|q: u16| hex4_upper(q))
}

/// Joining one more part: the separator comes before it unless it is the first.
pub proof fn lemma_join_push(parts: Seq<Seq<char>>, sep: Seq<char>, part: Seq<char>)
    ensures
        join(parts.push(part), sep) == if parts.len() == 0 {
            part
        } else {
            join(parts, sep) + sep + part
        },
{
    assert(parts.push(part).drop_last() =~= parts);
}

/// Appends the two lower-case hexadecimal digits of `b` to `out`.
pub fn push_hex2_lower(out: &mut String, b: u8)
    ensures
        final(out)@ == old(out)@ + hex2_lower(b),
{
    proof {
        reveal_strlit("0123456789abcdef");
    }
    out.push(HEX_LOWER.get_char((b / 16) as usize));
    out.push(HEX_LOWER.get_char((b % 16) as usize));
    assert(out@ =~= old(out)@ + hex2_lower(b));
}

/// Appends the four upper-case hexadecimal digits of `q` to `out`.
pub fn push_hex4_upper(out: &mut String, q: u16)
    ensures
        final(out)@ == old(out)@ + hex4_upper(q),
{
    proof {
        reveal_strlit("0123456789ABCDEF");
    }
    out.push(HEX_UPPER.get_char((q / 4096) as usize));
    out.push(HEX_UPPER.get_char((q / 256 % 16) as usize));
    out.push(HEX_UPPER.get_char((q / 16 % 16) as usize));
    out.push(HEX_UPPER.get_char((q % 16) as usize));
    assert(out@ =~= old(out)@ + hex4_upper(q));
}

/// The octets as two-digit lower-case hexadecimal groups with a colon between
/// each two.
pub fn octets_to_hex(octets: &[u8]) -> (text: String)
    ensures
        text@ == join(octet_groups(octets@), seq![':']),
{
    let mut text = String::new();
    let mut i: usize = 0;
    while i < octets.len()
        invariant
            i <= octets.len(),
            text@ == join(octet_groups(octets@.take(i as int)), seq![':']),
        decreases octets.len() - i,
    {
        let ghost before = text@;
        if i > 0 {
            text.push(':');
        }
        push_hex2_lower(&mut text, octets[i]);
        proof {
            let seen = octets@.take(i as int);
            assert(octets@.take(i + 1) =~= seen.push(octets@[i as int]));
            assert(octet_groups(seen.push(octets@[i as int])) =~= octet_groups(seen).push(
                hex2_lower(octets@[i as int]),
            ));
            lemma_join_push(octet_groups(seen), seq![':'], hex2_lower(octets@[i as int]));
            assert(before + seq![':'] =~= before.push(':'));
        }
        i = i + 1;
    }
    assert(octets@.take(octets@.len() as int) =~= octets@);
    text
}

/// The quads as four-digit upper-case hexadecimal groups with `sep` between
/// each two.
pub fn quads_to_hex(quads: &[u16], sep: char) -> (text: String)
    ensures
        text@ == join(quad_groups(quads@), seq![sep]),
{
    let mut text = String::new();
    let mut i: usize = 0;
    while i < quads.len()
        invariant
            i <= quads.len(),
            text@ == join(quad_groups(quads@.take(i as int)), seq![sep]),
        decreases quads.len() - i,
    {
        let ghost before = text@;
        if i > 0 {
            text.push(sep);
        }
        push_hex4_upper(&mut text, quads[i]);
        proof {
            let seen = quads@.take(i as int);
            assert(quads@.take(i + 1) =~= seen.push(quads@[i as int]));
            assert(quad_groups(seen.push(quads@[i as int])) =~= quad_groups(seen).push(
                hex4_upper(quads@[i as int]),
            ));
            lemma_join_push(quad_groups(seen), seq![sep], hex4_upper(quads@[i as int]));
            assert(before + seq![sep] =~= before.push(sep));
        }
        i = i + 1;
    }
    assert(quads@.take(quads@.len() as int) =~= quads@);
    text
}

} // verus!
