//! The ways in which a conversion can be refused.

use vstd::prelude::*;

verus! {

/// The two hardware address widths a ham address can be narrowed to.
#[derive(Clone, Copy, Debug, PartialEq, Eq)]
pub enum EuiWidth {
    /// Six octets.
    Eui48,
    /// Eight octets.
    Eui64,
}

/// Why a call sign or a ham address was refused.
#[derive(Clone, Copy, Debug, PartialEq, Eq)]
pub enum HamAddrError {
    /// The call sign, once in upper case, holds this character, which is not in
    /// the call-sign alphabet. It is the first such character.
    InvalidCharacter(char),
    /// The call sign, once in upper case, has more than twelve characters.
    TooLong,
    /// The ham address uses low bits for which the hardware address of this
    /// width has no room.
    AddressTooLarge(EuiWidth),
}

impl HamAddrError {
    /// The text that [`HamAddrError::message`] returns for `self`.
    pub open spec fn message_text(self) -> Seq<char> {
        match self {
            HamAddrError::InvalidCharacter(c) => "Callsign contains bad character '"@ + seq![c]
                + "'"@,
            HamAddrError::TooLong => "Callsign is too long"@,
            HamAddrError::AddressTooLarge(EuiWidth::Eui48) => "address too large for EUI-48 slot"@,
            HamAddrError::AddressTooLarge(EuiWidth::Eui64) => "address too large for EUI-64 slot"@,
        }
    }

    /// A sentence for people that says what went wrong. For an invalid
    /// character it quotes the character.
    pub fn message(&self) -> (text: String)
        ensures
            text@ == self.message_text(),
    {
        match self {
            HamAddrError::InvalidCharacter(c) => {
                let mut text = String::from_str("Callsign contains bad character '");
                text.push(*c);
                text.append("'");
                text
            },
            HamAddrError::TooLong => String::from_str("Callsign is too long"),
            HamAddrError::AddressTooLarge(EuiWidth::Eui48) => String::from_str(
                "address too large for EUI-48 slot",
            ),
            HamAddrError::AddressTooLarge(EuiWidth::Eui64) => String::from_str(
                "address too large for EUI-64 slot",
            ),
        }
    }
}

} // verus!
