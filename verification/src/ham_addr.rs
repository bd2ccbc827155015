//! The 64-bit ham address and its conversions.

use crate::bytes::{rotate_right, to_be_bytes};
use crate::callsign::{
    callsign_of, char_to_index, chunk_to_quad, encoded, in_alphabet, lemma_char_index,
    pack_quads, push_quad_chars, quads,
};
use crate::error::{EuiWidth, HamAddrError};
use crate::eui::{Eui48, Eui64};
use crate::hex::{join, quad_groups, quads_to_hex};
use crate::layout::{eui48_of_ham, eui64_of_ham, fits_eui48, fits_eui64};
use crate::strings::uppercase_of;
use vstd::prelude::*;

verus! {

/// A ham address: four 16-bit quads in one 64-bit number, the first quad in
/// the highest bits. A quad holds up to three call-sign characters in base 40;
/// a quad of zero holds none. Every number is an address.
#[derive(Clone, Copy, Debug, PartialEq, Eq)]
pub struct HamAddr(pub u64);

impl View for HamAddr {
    type V = u64;

    /// The address as a number.
    open spec fn view(&self) -> u64 {
        self.0
    }
}

/// Every character of `text` is in the call-sign alphabet.
pub open spec fn all_in_alphabet(text: Seq<char>) -> bool {
    forall|i: int| 0 <= i < text.len() ==> in_alphabet(#[trigger] text[i])
}

/// Position `i` of `text` holds its first character that is not in the
/// call-sign alphabet.
pub open spec fn is_first_invalid(text: Seq<char>, i: int) -> bool {
    &&& 0 <= i < text.len()
    &&& !in_alphabet(text[i])
    &&& forall|j: int| 0 <= j < i ==> in_alphabet(#[trigger] text[j])
}

/// What parsing makes of a text that is already in upper case. A character
/// outside the alphabet is reported first, and it is the first such
/// character; then a length above twelve; otherwise the text is packed.
pub open spec fn parsed(text: Seq<char>) -> Result<HamAddr, HamAddrError> {
    if !all_in_alphabet(text) {
        Err(HamAddrError::InvalidCharacter(text[choose|i: int| is_first_invalid(text, i)]))
    } else if text.len() > 12 {
        Err(HamAddrError::TooLong)
    } else {
        Ok(HamAddr(encoded(text)))
    }
}

/// The quads that are not zero, in their order.
pub open spec fn nonzero(quads: Seq<u16>) -> Seq<u16> {
    quads.filter(|q: u16| q != 0)
}

impl HamAddr {
    /// Parses a call sign, in upper or lower case, into a ham address.
    ///
    /// The text is first put into upper case, and what comes of that is parsed
    /// as [`HamAddr::parse_uppercase`] says.
    pub fn parse_callsign(callsign: &str) -> (r: Result<HamAddr, HamAddrError>)
        ensures
            r == parsed(uppercase_of(callsign@)),
    {
        let upper = callsign.to_uppercase();
        HamAddr::parse_uppercase(upper.as_str())
    }

    /// Parses a call sign that is already in upper case into a ham address.
    ///
    /// The text is refused with `InvalidCharacter` if it holds a character
    /// outside the call-sign alphabet, naming the first one; else with
    /// `TooLong` if it has more than twelve characters. Otherwise each group of
    /// three characters fills one quad, the first group the highest.
    pub fn parse_uppercase(text: &str) -> (r: Result<HamAddr, HamAddrError>)
        ensures
            r == parsed(text@),
    {
        let mut chars: Vec<char> = Vec::new();
        let letters = text.chars();
        for c in it: letters
            invariant
                it.seq() == text@,
                chars@ == text@.take(it.index()),
                all_in_alphabet(chars@),
        {
            proof {
                lemma_char_index(c);
            }
            if char_to_index(c) == 0 {
                assert(is_first_invalid(text@, it.index())) by {
                    assert forall|j: int| 0 <= j < it.index() implies in_alphabet(
                        #[trigger] text@[j],
                    ) by {
                        assert(text@[j] == chars@[j]);
                    }
                }
                return Err(HamAddrError::InvalidCharacter(c));
            }
            chars.push(c);
            assert(text@.take(it.index() + 1) =~= text@.take(it.index()).push(c));
        }
        assert(text@.take(text@.len() as int) =~= text@);
        if chars.len() > 12 {
            return Err(HamAddrError::TooLong);
        }
        let q0 = chunk_to_quad(chars.as_slice(), 0);
        let q1 = chunk_to_quad(chars.as_slice(), 1);
        let q2 = chunk_to_quad(chars.as_slice(), 2);
        let q3 = chunk_to_quad(chars.as_slice(), 3);
        Ok(HamAddr(pack_quads(q0, q1, q2, q3)))
    }

    /// The four quads, the one in the highest bits first.
    pub fn quads(&self) -> (q: [u16; 4])
        ensures
            q@ == quads(self@),
    {
        let a = self.0;
        assert({
            &&& (a >> 48) & 0xFFFF < 0x1_0000
            &&& (a >> 32) & 0xFFFF < 0x1_0000
            &&& (a >> 16) & 0xFFFF < 0x1_0000
            &&& a & 0xFFFF < 0x1_0000
        }) by (bit_vector);
        let q = [
            ((a >> 48) & 0xFFFF) as u16,
            ((a >> 32) & 0xFFFF) as u16,
            ((a >> 16) & 0xFFFF) as u16,
            (a & 0xFFFF) as u16,
        ];
        assert(q@ =~= quads(a));
        q
    }

    /// The call sign that the address holds: for each quad, from the highest,
    /// the characters of its three base-40 digits. A digit of zero gives no
    /// character, so every address gives some text, possibly an empty one.
    pub fn to_callsign(&self) -> (text: String)
        ensures
            text@ == callsign_of(self@),
    {
        let q = self.quads();
        let mut text = String::new();
        push_quad_chars(&mut text, q[0]);
        push_quad_chars(&mut text, q[1]);
        push_quad_chars(&mut text, q[2]);
        push_quad_chars(&mut text, q[3]);
        assert(text@ =~= callsign_of(self@));
        text
    }

    /// The quads that are not zero as four-digit upper-case hexadecimal groups
    /// with a colon between each two, as in `48ED:9C0C`.
    pub fn to_hex_string(&self) -> (text: String)
        ensures
            text@ == join(quad_groups(nonzero(quads(self@))), seq![':']),
    {
        let q = self.quads();
        let mut kept: Vec<u16> = Vec::new();
        let mut i: usize = 0;
        while i < 4
            invariant
                i <= 4,
                q@ == quads(self@),
                kept@ == nonzero(q@.take(i as int)),
            decreases 4 - i,
        {
            proof {
                q@.take(i as int).lemma_filter_push(q@[i as int], |q: u16| q != 0);
                assert(q@.take(i + 1) =~= q@.take(i as int).push(q@[i as int]));
            }
            if q[i] != 0 {
                kept.push(q[i]);
            }
            i = i + 1;
        }
        assert(q@.take(4) =~= q@);
        quads_to_hex(kept.as_slice(), ':')
    }

    /// All four quads as four-digit upper-case hexadecimal groups with a
    /// hyphen between each two, as in `5CAC-70F8-0000-0000`.
    pub fn to_ham64_string(&self) -> (text: String)
        ensures
            text@ == join(quad_groups(quads(self@)), seq!['-']),
    {
        let q = self.quads();
        quads_to_hex(&q, '-')
    }

    /// The EUI-64 for the address, if the address leaves its low three bits
    /// unused; `AddressTooLarge` if it does not.
    ///
    /// The byte that holds those bits moves to the front, where its low three
    /// bits mark the result as locally administered. It is the last byte,
    /// unless the low nineteen bits are all unused: then it is the sixth byte,
    /// and the result has the form of an EUI-48 filled up to an EUI-64.
    pub fn to_eui64(&self) -> (r: Result<Eui64, HamAddrError>)
        ensures
            match r {
                Ok(eui) => fits_eui64(self@) && eui@ == eui64_of_ham(self@),
                Err(e) => !fits_eui64(self@) && e == HamAddrError::AddressTooLarge(
                    EuiWidth::Eui64,
                ),
            },
    {
        if self.0 & 0b0111 != 0 {
            return Err(HamAddrError::AddressTooLarge(EuiWidth::Eui64));
        }
        let is_small = self.0 & 0x0000_0000_0007_FFFF == 0;
        let mut bytes = to_be_bytes(self.0);
        let slot: usize = if is_small {
            5
        } else {
            7
        };
        let first_byte = bytes[slot];
        bytes[slot] = 0;
        rotate_right(&mut bytes, 0, 8, 1);
        bytes[0] = (first_byte & 0b1111_1000) | 0b0010;
        if is_small {
            rotate_right(&mut bytes, 3, 8, 2);
            bytes[3] = 0xFF;
            bytes[4] = 0xFE;
        }
        assert(bytes@ =~= eui64_of_ham(self@));
        Ok(Eui64::new(bytes))
    }

    /// The EUI-48 for the address, if the address leaves its low nineteen bits
    /// unused; `AddressTooLarge` if it does not.
    ///
    /// The sixth byte moves to the front, where its low three bits mark the
    /// result as locally administered; the first five bytes follow it.
    pub fn to_eui48(&self) -> (r: Result<Eui48, HamAddrError>)
        ensures
            match r {
                Ok(eui) => fits_eui48(self@) && eui@ == eui48_of_ham(self@),
                Err(e) => !fits_eui48(self@) && e == HamAddrError::AddressTooLarge(
                    EuiWidth::Eui48,
                ),
            },
    {
        if self.0 & 0x0000_0000_0007_FFFF != 0 {
            return Err(HamAddrError::AddressTooLarge(EuiWidth::Eui48));
        }
        let all = to_be_bytes(self.0);
        let mut bytes = [all[0], all[1], all[2], all[3], all[4], all[5]];
        rotate_right(&mut bytes, 0, 6, 1);
        bytes[0] = (bytes[0] & 0b1111_1000) | 0b0010;
        assert(bytes@ =~= eui48_of_ham(self@));
        Ok(Eui48::new(bytes))
    }
}

} // verus!
