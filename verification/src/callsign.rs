//! The call-sign alphabet and the base-40 packing of characters into quads.
//!
//! A character stands for its position in the alphabet, counted from one. Up to
//! three characters make a quad: the first counts 1600 times, the second 40
//! times, the third once, and a missing character counts as zero. The sum is
//! kept in sixteen bits; a sum that does not fit loses what is above them.

use vstd::prelude::*;

verus! {

/// The forty characters of a call sign, in the order that gives each its
/// number: `A` is 1 and `^` is 40.
pub const ALPHABET: &'static str = "ABCDEFGHIJKLMNOPQRSTUVWXYZ0123456789/-\\^";

/// `c` is one of the forty characters of the alphabet.
pub open spec fn in_alphabet(c: char) -> bool {
    ALPHABET@.contains(c)
}

/// The position of `c` in the alphabet, counted from one; zero for a
/// character that is not in it.
pub open spec fn char_index(c: char) -> int {
    if in_alphabet(c) {
        ALPHABET@.index_of(c) + 1
    } else {
        0
    }
}

/// The number for position `i` of `text`: that of the character there, and
/// zero behind the end of the text.
pub open spec fn digit_at(text: Seq<char>, i: int) -> int {
    if 0 <= i < text.len() {
        char_index(text[i])
    } else {
        0
    }
}

/// The quad for three numbers, the low sixteen bits of
/// `d0 * 1600 + d1 * 40 + d2`.
pub open spec fn quad_of_digits(d0: int, d1: int, d2: int) -> u16 {
    ((d0 * 1600 + d1 * 40 + d2) % 0x1_0000) as u16
}

/// The quad for the `g`-th group of three characters of `text`, counted from
/// zero. A group behind the end of the text gives zero.
pub open spec fn quad_at(text: Seq<char>, g: int) -> u16 {
    quad_of_digits(digit_at(text, 3 * g), digit_at(text, 3 * g + 1), digit_at(text, 3 * g + 2))
}

/// What a number between 1 and 40 stands for: the character at that position
/// of the alphabet, as a text of one character. Any other number stands for
/// nothing, the empty text.
pub open spec fn digit_chars(d: int) -> Seq<char> {
    if 1 <= d <= 40 {
        seq![ALPHABET@[d - 1]]
    } else {
        Seq::empty()
    }
}

/// The characters that a quad holds: those of its three base-40 digits, the
/// highest first. A digit of zero gives no character, wherever it stands. The
/// highest digit is taken modulo 40 like the others, so a quad of 64000 or
/// more gives no character for it.
pub open spec fn quad_chars(q: u16) -> Seq<char> {
    digit_chars(q as int / 1600 % 40) + digit_chars(q as int / 40 % 40)
        + digit_chars(q as int % 40)
}

/// The four quads of the number `a`, the one in the highest bits first.
pub open spec fn quads(a: u64) -> Seq<u16> {
    seq![
        ((a >> 48) & 0xFFFF) as u16,
        ((a >> 32) & 0xFFFF) as u16,
        ((a >> 16) & 0xFFFF) as u16,
        (a & 0xFFFF) as u16,
    ]
}

/// The number whose quads are the first four of `q`, the first in the highest
/// bits.
pub open spec fn from_quads(q: Seq<u16>) -> u64 {
    (q[0] as u64) << 48 | (q[1] as u64) << 32 | (q[2] as u64) << 16 | (q[3] as u64)
}

/// The number that holds the first twelve characters of `text`, three to a
/// quad, the first group in the highest quad. Groups that the text does not
/// reach are zero.
pub open spec fn encoded(text: Seq<char>) -> u64 {
    from_quads(seq![quad_at(text, 0), quad_at(text, 1), quad_at(text, 2), quad_at(text, 3)])
}

/// The call sign that the number `a` holds: the characters of its four quads,
/// the highest quad first.
pub open spec fn callsign_of(a: u64) -> Seq<char> {
    let q = quads(a);
    quad_chars(q[0]) + quad_chars(q[1]) + quad_chars(q[2]) + quad_chars(q[3])
}

/// The character at each position of the alphabet, written without the
/// alphabet: letters, then digits, then `/`, `-`, `\` and `^`.
pub open spec fn nth_char(i: int) -> char {
    if i < 26 {
        ('A' as int + i) as char
    } else if i < 36 {
        ('0' as int + i - 26) as char
    } else if i == 36 {
        '/'
    } else if i == 37 {
        '-'
    } else if i == 38 {
        '\\'
    } else {
        '^'
    }
}

/// The alphabet has forty characters, and the one at position `i` is
/// `nth_char(i)`.
pub proof fn lemma_alphabet()
    ensures
        ALPHABET@.len() == 40,
        forall|i: int| 0 <= i < 40 ==> #[trigger] ALPHABET@[i] == nth_char(i),
{
    reveal_strlit("ABCDEFGHIJKLMNOPQRSTUVWXYZ0123456789/-\\^");
}

/// The number of a character by its kind: a letter counts from 1, a digit
/// from 27, and `/`, `-`, `\`, `^` are 37 to 40. Any other character has the
/// number zero. The character with a number stands at that position of the
/// alphabet.
pub proof fn lemma_char_index(c: char)
    ensures
        char_index(c) == if 'A' <= c <= 'Z' {
            c as int - 'A' as int + 1
        } else if '0' <= c <= '9' {
            c as int - '0' as int + 27
        } else if c == '/' {
            37
        } else if c == '-' {
            38
        } else if c == '\\' {
            39
        } else if c == '^' {
            40
        } else {
            0
        },
        0 <= char_index(c) <= 40,
        char_index(c) != 0 <==> in_alphabet(c),
        char_index(c) != 0 ==> ALPHABET@[char_index(c) - 1] == c,
{
    lemma_alphabet();
    if 'A' <= c <= 'Z' {
        assert(ALPHABET@[c as int - 'A' as int] == c);
    } else if '0' <= c <= '9' {
        assert(ALPHABET@[c as int - '0' as int + 26] == c);
    } else if c == '/' {
        assert(ALPHABET@[36] == c);
    } else if c == '-' {
        assert(ALPHABET@[37] == c);
    } else if c == '\\' {
        assert(ALPHABET@[38] == c);
    } else if c == '^' {
        assert(ALPHABET@[39] == c);
    }
}

/// The character at position `k` of the alphabet, counted from one, has the
/// number `k`: no character stands in the alphabet twice.
pub proof fn lemma_index_of_alphabet_char(k: int)
    requires
        1 <= k <= 40,
    ensures
        in_alphabet(ALPHABET@[k - 1]),
        char_index(ALPHABET@[k - 1]) == k,
{
    lemma_alphabet();
    lemma_char_index(ALPHABET@[k - 1]);
}

/// Packing four quads into a number and taking its quads gives the four.
pub proof fn lemma_quads_of_from_quads(q: Seq<u16>)
    requires
        q.len() == 4,
    ensures
        quads(from_quads(q)) == q,
{
    let (q0, q1, q2, q3) = (q[0], q[1], q[2], q[3]);
    let a = from_quads(q);
    assert({
        &&& ((a >> 48) & 0xFFFF) as u16 == q0
        &&& ((a >> 32) & 0xFFFF) as u16 == q1
        &&& ((a >> 16) & 0xFFFF) as u16 == q2
        &&& (a & 0xFFFF) as u16 == q3
    }) by (bit_vector)
        requires
            a == (q0 as u64) << 48 | (q1 as u64) << 32 | (q2 as u64) << 16 | (q3 as u64),
    ;
    assert(quads(a) =~= q);
}

/// The position of `c` in the alphabet, counted from one; zero for a
/// character that is not in it.
pub fn char_to_index(c: char) -> (k: u16)
    ensures
        k == char_index(c),
{
    proof {
        lemma_alphabet();
        lemma_char_index(c);
    }
    let mut k: u16 = 0;
    let letters = ALPHABET.chars();
    for a in it: letters
        invariant
            it.seq() == ALPHABET@,
            ALPHABET@.len() == 40,
            k == it.index(),
            forall|j: int| 0 <= j < it.index() ==> ALPHABET@[j] != c,
            char_index(c) != 0 ==> ALPHABET@[char_index(c) - 1] == c,
            0 <= char_index(c) <= 40,
    {
        k = k + 1;
        if a == c {
            proof {
                lemma_index_of_alphabet_char(k as int);
            }
            return k;
        }
    }
    0
}

/// The quad for the `group`-th group of three characters of `text`, counted
/// from zero: the characters at positions `3 * group` to `3 * group + 2`, as far
/// as the text has them.
pub fn chunk_to_quad(text: &[char], group: usize) -> (quad: u16)
    ensures
        quad == quad_at(text@, group as int),
{
    if group > text.len() / 3 {
        return 0;
    }
    let start = 3 * group;
    let rest = text.len() - start;
    let mut digits: [u32; 3] = [0, 0, 0];
    let mut i: usize = 0;
    while i < 3
        invariant
            i <= 3,
            start == 3 * group,
            start + rest == text@.len() <= usize::MAX,
            forall|j: int| 0 <= j < i ==> #[trigger] digits@[j] == digit_at(text@, start + j),
            forall|j: int| 0 <= j < i ==> 0 <= #[trigger] digits@[j] <= 40,
            forall|j: int| i <= j < 3 ==> #[trigger] digits@[j] == 0,
        decreases 3 - i,
    {
        if i < rest {
            let c = text[start + i];
            proof {
                lemma_char_index(c);
            }
            digits[i] = char_to_index(c) as u32;
        }
        i = i + 1;
    }
    assert(digits@[0] == digit_at(text@, start + 0));
    assert(digits@[1] == digit_at(text@, start + 1));
    assert(digits@[2] == digit_at(text@, start + 2));
    let sum: u32 = digits[0] * 1600 + digits[1] * 40 + digits[2];
    (sum % 0x1_0000) as u16
}

/// The number with the four quads, `q0` in the highest bits.
pub fn pack_quads(q0: u16, q1: u16, q2: u16, q3: u16) -> (a: u64)
    ensures
        a == from_quads(seq![q0, q1, q2, q3]),
{
    let mut a: u64 = 0;
    a = (a << 16) | (q0 as u64);
    a = (a << 16) | (q1 as u64);
    a = (a << 16) | (q2 as u64);
    a = (a << 16) | (q3 as u64);
    assert((((((0u64 << 16) | (q0 as u64)) << 16) | (q1 as u64)) << 16 | (q2 as u64)) << 16
        | (q3 as u64) == (q0 as u64) << 48 | (q1 as u64) << 32 | (q2 as u64) << 16 | (q3 as u64))
        by (bit_vector);
    a
}

/// Appends to `out` the character that the number `d` stands for, if it
/// stands for one.
pub fn push_digit_char(out: &mut String, d: u16)
    ensures
        final(out)@ == old(out)@ + digit_chars(d as int),
{
    proof {
        lemma_alphabet();
    }
    if 1 <= d && d <= 40 {
        out.push(ALPHABET.get_char((d - 1) as usize));
        assert(out@ =~= old(out)@ + digit_chars(d as int));
    } else {
        assert(out@ =~= old(out)@ + digit_chars(d as int));
    }
}

/// Appends to `out` the characters that the quad `q` holds.
pub fn push_quad_chars(out: &mut String, q: u16)
    ensures
        final(out)@ == old(out)@ + quad_chars(q),
{
    push_digit_char(out, q / 1600 % 40);
    push_digit_char(out, q / 40 % 40);
    push_digit_char(out, q % 40);
    assert(out@ =~= old(out)@ + quad_chars(q));
}

} // verus!
