//! EUI-48 and EUI-64 hardware addresses.

use crate::bytes::{rotate_left, u64_from_be_bytes};
use crate::ham_addr::HamAddr;
use crate::hex::{join, octet_groups, octets_to_hex};
use crate::layout::{eui64_of_eui48, ham_of_eui48, ham_of_eui64};
use vstd::prelude::*;

verus! {

/// An EUI-48 hardware address: six octets, in the order in which they are
/// written. Every pattern of octets is an address.
#[derive(Clone, Copy, Debug, PartialEq, Eq)]
pub struct Eui48(pub [u8; 6]);

/// An EUI-64 hardware address: eight octets, in the order in which they are
/// written. Every pattern of octets is an address.
#[derive(Clone, Copy, Debug, PartialEq, Eq)]
pub struct Eui64(pub [u8; 8]);

impl View for Eui48 {
    type V = Seq<u8>;

    /// The six octets.
    open spec fn view(&self) -> Seq<u8> {
        self.0@
    }
}

impl View for Eui64 {
    type V = Seq<u8>;

    /// The eight octets.
    open spec fn view(&self) -> Seq<u8> {
        self.0@
    }
}

impl Eui48 {
    /// The address with the given six octets.
    pub fn new(addr: [u8; 6]) -> (eui: Eui48)
        ensures
            eui@ == addr@,
            eui.0 == addr,
    {
        Eui48(addr)
    }

    /// The octets as six two-digit lower-case hexadecimal groups with a colon
    /// between each two, as in `02:48:ed:9c:0c:00`.
    pub fn to_hex_string(&self) -> (text: String)
        ensures
            text@ == join(octet_groups(self@), seq![':']),
    {
        octets_to_hex(&self.0)
    }

    /// The ham address for this hardware address. The local-administration bit
    /// of the first octet is dropped, the octets are rotated left by one place,
    /// and two zero bytes follow them. Every address has one.
    pub fn to_ham_addr(&self) -> (addr: HamAddr)
        ensures
            addr@ == ham_of_eui48(self@),
    {
        let mut octets = self.0;
        octets[0] = octets[0] & 0b1111_1101;
        rotate_left(&mut octets, 0, 6, 1);
        let bytes = [octets[0], octets[1], octets[2], octets[3], octets[4], octets[5], 0, 0];
        assert(bytes@ =~= seq![
            self@[1],
            self@[2],
            self@[3],
            self@[4],
            self@[5],
            self@[0] & 0b1111_1101,
            0,
            0,
        ]);
        HamAddr(u64_from_be_bytes(&bytes))
    }
}

impl Eui64 {
    /// The address with the given eight octets.
    pub fn new(addr: [u8; 8]) -> (eui: Eui64)
        ensures
            eui@ == addr@,
            eui.0 == addr,
    {
        Eui64(addr)
    }

    /// The octets as eight two-digit lower-case hexadecimal groups with a colon
    /// between each two, as in `02:48:ed:ff:fe:9c:0c:00`.
    pub fn to_hex_string(&self) -> (text: String)
        ensures
            text@ == join(octet_groups(self@), seq![':']),
    {
        octets_to_hex(&self.0)
    }

    /// The ham address for this hardware address. The local-administration bit
    /// of the first octet is dropped. Where the octets at positions 3 and 4 are
    /// the filler `FF FE`, the filler is taken out and the six octets that are
    /// left are rotated left by one place, zero bytes following; otherwise all
    /// eight octets are rotated left by one place. Every address has one.
    pub fn to_ham_addr(&self) -> (addr: HamAddr)
        ensures
            addr@ == ham_of_eui64(self@),
    {
        let mut bytes = self.0;
        bytes[0] = bytes[0] & 0b1111_1101;
        if bytes[3] == 0xFF && bytes[4] == 0xFE {
            rotate_left(&mut bytes, 3, 8, 2);
            bytes[6] = 0;
            bytes[7] = 0;
            rotate_left(&mut bytes, 0, 6, 1);
            assert(bytes@ =~= seq![
                self@[1],
                self@[2],
                self@[5],
                self@[6],
                self@[7],
                self@[0] & 0b1111_1101,
                0,
                0,
            ]);
        } else {
            rotate_left(&mut bytes, 0, 8, 1);
            assert(bytes@ =~= seq![
                self@[1],
                self@[2],
                self@[3],
                self@[4],
                self@[5],
                self@[6],
                self@[7],
                self@[0] & 0b1111_1101,
            ]);
        }
        HamAddr(u64_from_be_bytes(&bytes))
    }
}

impl vstd::std_specs::convert::FromSpecImpl<&Eui48> for Eui64 {
    open spec fn obeys_from_spec() -> bool {
        true
    }

    /// `o0 o1 o2 FF FE o3 o4 o5` for the octets `o0` to `o5`.
    open spec fn from_spec(eui48: &Eui48) -> Eui64 {
        Eui64(
            [
                eui48.0[0],
                eui48.0[1],
                eui48.0[2],
                0xFF,
                0xFE,
                eui48.0[3],
                eui48.0[4],
                eui48.0[5],
            ],
        )
    }
}

impl From<&Eui48> for Eui64 {
    /// The EUI-64 for an EUI-48: the filler `FF FE` goes between the first
    /// three octets and the last three. Every EUI-48 has one.
    fn from(eui48: &Eui48) -> (eui64: Eui64)
        ensures
            eui64@ == eui64_of_eui48(eui48@),
    {
        let o = &eui48.0;
        let bytes = [o[0], o[1], o[2], 0xFF, 0xFE, o[3], o[4], o[5]];
        assert(bytes@ =~= eui64_of_eui48(eui48@));
        Eui64(bytes)
    }
}

} // verus!
