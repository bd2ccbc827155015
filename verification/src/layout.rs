//! Where the bytes go: the byte layouts of the conversions between ham
//! addresses and hardware addresses.
//!
//! In the comments `b0` to `b7` are the bytes of a ham address, most
//! significant first; `o0` to `o5` the octets of an EUI-48; `e0` to `e7` those
//! of an EUI-64.

use crate::bytes::{be_bytes, from_be_bytes};
use vstd::prelude::*;

verus! {

/// `first` with bit 1, the local-administration bit, cleared.
pub open spec fn without_local_bit(first: u8) -> u8 {
    first & 0b1111_1101
}

/// `b` with its low three bits replaced by `010`: the first octet of a
/// locally administered unicast address that keeps the high five bits of `b`.
pub open spec fn local_first_octet(b: u8) -> u8 {
    (b & 0b1111_1000) | 0b0000_0010
}

/// The octets at positions 3 and 4 are `FF FE`, the filler that marks an
/// EUI-64 made from an EUI-48.
pub open spec fn has_marker(e: Seq<u8>) -> bool {
    e[3] == 0xFF && e[4] == 0xFE
}

/// The EUI-64 made from the EUI-48 `o`: `o0 o1 o2 FF FE o3 o4 o5`.
pub open spec fn eui64_of_eui48(o: Seq<u8>) -> Seq<u8> {
    seq![o[0], o[1], o[2], 0xFF, 0xFE, o[3], o[4], o[5]]
}

/// The ham address of the EUI-48 `o`: `o1 o2 o3 o4 o5 o0' 00 00`, where `o0'`
/// is `o0` without the local-administration bit.
pub open spec fn ham_of_eui48(o: Seq<u8>) -> u64 {
    from_be_bytes(seq![o[1], o[2], o[3], o[4], o[5], without_local_bit(o[0]), 0, 0])
}

/// The ham address of the EUI-64 `e`, where `e0'` is `e0` without the
/// local-administration bit: with the `FF FE` filler, `e1 e2 e5 e6 e7 e0' 00 00`;
/// without it, `e1 e2 e3 e4 e5 e6 e7 e0'`.
pub open spec fn ham_of_eui64(e: Seq<u8>) -> u64 {
    if has_marker(e) {
        from_be_bytes(seq![e[1], e[2], e[5], e[6], e[7], without_local_bit(e[0]), 0, 0])
    } else {
        from_be_bytes(seq![e[1], e[2], e[3], e[4], e[5], e[6], e[7], without_local_bit(e[0])])
    }
}

/// The low three bits of `a` are clear: an EUI-64 has room for it.
pub open spec fn fits_eui64(a: u64) -> bool {
    a & 0b0111 == 0
}

/// The low nineteen bits of `a` are clear: an EUI-48 has room for it.
pub open spec fn fits_eui48(a: u64) -> bool {
    a & 0x0000_0000_0007_FFFF == 0
}

/// The EUI-48 of the ham address `a`: `b5' b0 b1 b2 b3 b4`, where `b5'` is `b5`
/// with its low three bits replaced by `010`. Meant for an `a` that fits.
pub open spec fn eui48_of_ham(a: u64) -> Seq<u8> {
    let b = be_bytes(a);
    seq![local_first_octet(b[5]), b[0], b[1], b[2], b[3], b[4]]
}

/// The EUI-64 of the ham address `a`. Where `a` would fit an EUI-48 it is that
/// EUI-48 with the filler, `b5' b0 b1 FF FE b2 b3 b4`; otherwise
/// `b7' b0 b1 b2 b3 b4 b5 b6`. The primed byte has its low three bits replaced
/// by `010`. Meant for an `a` that fits.
pub open spec fn eui64_of_ham(a: u64) -> Seq<u8> {
    let b = be_bytes(a);
    if fits_eui48(a) {
        seq![local_first_octet(b[5]), b[0], b[1], 0xFF, 0xFE, b[2], b[3], b[4]]
    } else {
        seq![local_first_octet(b[7]), b[0], b[1], b[2], b[3], b[4], b[5], b[6]]
    }
}

} // verus!
