//! What holds of the conversions taken together: which round trips give back
//! what went in.

use crate::bytes::{
    be_bytes, lemma_be_bytes_of_from_be_bytes, lemma_from_be_bytes_of_be_bytes,
};
use crate::callsign::{
    callsign_of, digit_at, digit_chars, encoded, in_alphabet, lemma_alphabet, lemma_char_index,
    lemma_quads_of_from_quads, quad_at, quad_chars, quads, ALPHABET,
};
use crate::error::HamAddrError;
use crate::eui::Eui48;
use crate::ham_addr::{all_in_alphabet, parsed, HamAddr};
use crate::layout::{
    eui48_of_ham, eui64_of_eui48, eui64_of_ham, fits_eui48, fits_eui64, ham_of_eui48,
    ham_of_eui64, has_marker, local_first_octet, without_local_bit,
};
use crate::strings::uppercase_of;
use vstd::prelude::*;

verus! {

/// Every character of `text` is in the call-sign alphabet and none is `^`.
///
/// The character `^` has the number 40, which is no base-40 digit: a quad
/// cannot give it back.
pub open spec fn all_recoverable(text: Seq<char>) -> bool {
    forall|i: int| 0 <= i < text.len() ==> in_alphabet(#[trigger] text[i]) && text[i] != '^'
}

/// The characters of the `g`-th group of three of `text`, as far as the text
/// has them.
spec fn group_chars(text: Seq<char>, g: int) -> Seq<char> {
    let from = if 3 * g <= text.len() {
        3 * g
    } else {
        text.len() as int
    };
    let to = if 3 * g + 3 <= text.len() {
        3 * g + 3
    } else {
        text.len() as int
    };
    text.subrange(from, to)
}

/// A quad made from a group of characters without `^` gives the group back.
proof fn lemma_quad_holds_group(text: Seq<char>, g: int)
    requires
        0 <= g,
        all_recoverable(text),
    ensures
        quad_chars(quad_at(text, g)) == group_chars(text, g),
{
    let d0 = digit_at(text, 3 * g);
    let d1 = digit_at(text, 3 * g + 1);
    let d2 = digit_at(text, 3 * g + 2);
    assert forall|i: int| 3 * g <= i < 3 * g + 3 implies if i < text.len() {
        1 <= digit_at(text, i) <= 39 && digit_chars(digit_at(text, i)) == seq![text[i]]
    } else {
        digit_at(text, i) == 0 && digit_chars(digit_at(text, i)) == Seq::<char>::empty()
    } by {
        if i < text.len() {
            lemma_char_index(text[i]);
            assert(in_alphabet(text[i]) && text[i] != '^');
        }
    }
    let sum = d0 * 1600 + d1 * 40 + d2;
    assert(0 <= sum <= 63999);
    let q = quad_at(text, g);
    assert(q as int == sum);
    assert(sum / 1600 % 40 == d0 && sum / 40 % 40 == d1 && sum % 40 == d2);
    assert(quad_chars(q) =~= group_chars(text, g));
}

/// Round trip of a call sign: a text of at most twelve characters of the
/// call-sign alphabet, none of them `^`, is accepted, and the address it is
/// packed into holds exactly that text.
///
/// Parsing a call sign in any case puts it into upper case first, so with the
/// upper-case form for `text` this says that the call sign read back from a
/// parsed address is the upper-case form of what was parsed.
pub proof fn lemma_callsign_round_trip(text: Seq<char>)
    requires
        text.len() <= 12,
        all_recoverable(text),
    ensures
        parsed(text) == Ok::<HamAddr, HamAddrError>(HamAddr(encoded(text))),
        callsign_of(encoded(text)) == text,
{
    assert(all_in_alphabet(text));
    lemma_quad_holds_group(text, 0);
    lemma_quad_holds_group(text, 1);
    lemma_quad_holds_group(text, 2);
    lemma_quad_holds_group(text, 3);
    lemma_quads_of_from_quads(
        seq![quad_at(text, 0), quad_at(text, 1), quad_at(text, 2), quad_at(text, 3)],
    );
    assert(callsign_of(encoded(text)) =~= group_chars(text, 0) + group_chars(text, 1)
        + group_chars(text, 2) + group_chars(text, 3));
    assert(group_chars(text, 0) + group_chars(text, 1) + group_chars(text, 2)
        + group_chars(text, 3) =~= text);
}

/// Round trip of a call sign in any case: where parsing accepts a call sign
/// whose upper-case form is free of `^`, the address reads back as that
/// upper-case form.
pub proof fn lemma_parsed_callsign_reads_as_upper_case(callsign: Seq<char>)
    ensures
        parsed(uppercase_of(callsign)) matches Ok(addr) ==> uppercase_of(callsign).contains('^')
            || callsign_of(addr@) == uppercase_of(callsign),
{
    let upper = uppercase_of(callsign);
    if parsed(upper) is Ok && !upper.contains('^') {
        assert(all_in_alphabet(upper));
        assert(all_recoverable(upper));
        lemma_callsign_round_trip(upper);
    }
}

/// No address reads as a call sign with `^` in it: the number of `^` is 40,
/// and the digits of a quad end at 39. So a text that holds `^` never comes
/// back from the address it was packed into.
pub proof fn lemma_caret_never_comes_back(a: u64, text: Seq<char>)
    requires
        text.contains('^'),
    ensures
        callsign_of(a) != text,
{
    let q = quads(a);
    lemma_quad_chars_without_caret(q[0]);
    lemma_quad_chars_without_caret(q[1]);
    lemma_quad_chars_without_caret(q[2]);
    lemma_quad_chars_without_caret(q[3]);
    let read = callsign_of(a);
    assert forall|i: int| 0 <= i < read.len() implies read[i] != '^' by {
        let n0 = quad_chars(q[0]).len();
        let n1 = quad_chars(q[1]).len();
        let n2 = quad_chars(q[2]).len();
        if i < n0 {
            assert(read[i] == quad_chars(q[0])[i]);
        } else if i < n0 + n1 {
            assert(read[i] == quad_chars(q[1])[i - n0]);
        } else if i < n0 + n1 + n2 {
            assert(read[i] == quad_chars(q[2])[i - n0 - n1]);
        } else {
            assert(read[i] == quad_chars(q[3])[i - n0 - n1 - n2]);
        }
    }
}

/// The characters that a quad holds are among the first thirty-nine of the
/// alphabet: none is `^`.
proof fn lemma_quad_chars_without_caret(q: u16)
    ensures
        forall|i: int| 0 <= i < quad_chars(q).len() ==> quad_chars(q)[i] != '^',
{
    lemma_alphabet();
    let d0 = q as int / 1600 % 40;
    let d1 = q as int / 40 % 40;
    let d2 = q as int % 40;
    let held = quad_chars(q);
    assert forall|i: int| 0 <= i < held.len() implies held[i] != '^' by {
        let n0 = digit_chars(d0).len();
        let n1 = digit_chars(d1).len();
        if i < n0 {
            assert(held[i] == ALPHABET@[d0 - 1]);
        } else if i < n0 + n1 {
            assert(held[i] == ALPHABET@[d1 - 1]);
        } else {
            assert(held[i] == ALPHABET@[d2 - 1]);
        }
    }
}

/// What clear low bits say of the bytes of an address. With the low three
/// bits clear, the last byte comes back unchanged when its low three bits are
/// replaced by the local mark and the mark is dropped again. With the low
/// nineteen bits clear, the last two bytes are zero and the same holds of the
/// sixth byte.
proof fn lemma_low_bits(a: u64)
    ensures
        fits_eui64(a) ==> without_local_bit(local_first_octet(be_bytes(a)[7])) == be_bytes(a)[7],
        fits_eui48(a) ==> {
            &&& fits_eui64(a)
            &&& be_bytes(a)[6] == 0
            &&& be_bytes(a)[7] == 0
            &&& without_local_bit(local_first_octet(be_bytes(a)[5])) == be_bytes(a)[5]
        },
{
    assert(a & 0b0111 == 0 ==> ((((a & 0xFF) as u8) & 0b1111_1000) | 0b0000_0010) & 0b1111_1101
        == (a & 0xFF) as u8) by (bit_vector);
    assert(a & 0x0000_0000_0007_FFFF == 0 ==> {
        &&& a & 0b0111 == 0
        &&& ((a >> 8) & 0xFF) as u8 == 0
        &&& (a & 0xFF) as u8 == 0
        &&& (((((a >> 16) & 0xFF) as u8) & 0b1111_1000) | 0b0000_0010) & 0b1111_1101 == ((a >> 16)
            & 0xFF) as u8
    }) by (bit_vector);
}

/// Round trip through an EUI-48: an address whose low nineteen bits are clear
/// comes back from its EUI-48 unchanged.
pub proof fn lemma_eui48_round_trip(addr: HamAddr)
    requires
        fits_eui48(addr@),
    ensures
        ham_of_eui48(eui48_of_ham(addr@)) == addr@,
{
    let a = addr@;
    let b = be_bytes(a);
    lemma_low_bits(a);
    let o = eui48_of_ham(a);
    assert(seq![o[1], o[2], o[3], o[4], o[5], o[0] & 0b1111_1101, 0, 0] =~= b);
    lemma_from_be_bytes_of_be_bytes(a);
}

/// An address that would not come back from its EUI-64: it does not fit an
/// EUI-48, yet its third and fourth bytes are `FF FE`. Its EUI-64 carries
/// those two bytes where the filler of a widened EUI-48 stands, and is read
/// back as one.
pub open spec fn looks_widened(a: u64) -> bool {
    !fits_eui48(a) && be_bytes(a)[2] == 0xFF && be_bytes(a)[3] == 0xFE
}

/// Round trip through an EUI-64: an address whose low three bits are clear
/// comes back from its EUI-64 unchanged, unless it is one of those that
/// [`looks_widened`] describes.
pub proof fn lemma_eui64_round_trip(addr: HamAddr)
    requires
        fits_eui64(addr@),
        !looks_widened(addr@),
    ensures
        ham_of_eui64(eui64_of_ham(addr@)) == addr@,
{
    let a = addr@;
    let b = be_bytes(a);
    lemma_low_bits(a);
    let e = eui64_of_ham(a);
    if fits_eui48(a) {
        assert(has_marker(e));
        assert(seq![e[1], e[2], e[5], e[6], e[7], e[0] & 0b1111_1101, 0, 0] =~= b);
    } else {
        assert(!has_marker(e));
        assert(seq![e[1], e[2], e[3], e[4], e[5], e[6], e[7], e[0] & 0b1111_1101] =~= b);
    }
    lemma_from_be_bytes_of_be_bytes(a);
}

/// An address that [`looks_widened`] never comes back from its EUI-64.
pub proof fn lemma_eui64_round_trip_fails(addr: HamAddr)
    requires
        fits_eui64(addr@),
        looks_widened(addr@),
    ensures
        ham_of_eui64(eui64_of_ham(addr@)) != addr@,
{
    let a = addr@;
    let b = be_bytes(a);
    let e = eui64_of_ham(a);
    assert(has_marker(e));
    let back = seq![e[1], e[2], e[5], e[6], e[7], e[0] & 0b1111_1101, 0, 0];
    lemma_be_bytes_of_from_be_bytes(back);
    if ham_of_eui64(e) == a {
        assert(be_bytes(a) == back);
        assert(b[2] == back[2]);
        assert(b[4] == back[4]);
        assert(b[6] == back[6]);
        assert(false);
    }
}

/// Widening commutes with the way down: for an address that fits an EUI-48,
/// its EUI-64 is its EUI-48 widened.
pub proof fn lemma_eui64_is_widened_eui48(addr: HamAddr)
    requires
        fits_eui48(addr@),
    ensures
        eui64_of_ham(addr@) == eui64_of_eui48(eui48_of_ham(addr@)),
{
    assert(eui64_of_ham(addr@) =~= eui64_of_eui48(eui48_of_ham(addr@)));
}

/// Widening commutes with the way up: an EUI-48 and the EUI-64 made from it
/// have the same ham address.
pub proof fn lemma_widening_keeps_ham_addr(eui48: Eui48)
    ensures
        ham_of_eui64(eui64_of_eui48(eui48@)) == ham_of_eui48(eui48@),
{
    let o = eui48@;
    let e = eui64_of_eui48(o);
    assert(has_marker(e));
    assert(seq![e[1], e[2], e[5], e[6], e[7], e[0] & 0b1111_1101, 0, 0] =~= seq![
        o[1],
        o[2],
        o[3],
        o[4],
        o[5],
        o[0] & 0b1111_1101,
        0,
        0,
    ]);
}

} // verus!
