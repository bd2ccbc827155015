//! Transcoding between amateur-radio call signs, 64-bit ham addresses and
//! EUI-48 / EUI-64 hardware addresses.
//!
//! A call sign of up to twelve characters is packed, three characters to a
//! 16-bit quad in base 40, into a [`HamAddr`]. A ham address whose low bits are
//! clear maps onto a locally administered [`Eui64`] or [`Eui48`], and every
//! hardware address maps back onto a ham address.

pub mod bytes;
pub mod callsign;
pub mod error;
pub mod eui;
pub mod ham_addr;
pub mod hex;
pub mod laws;
pub mod layout;
pub mod strings;

pub use error::{EuiWidth, HamAddrError};
pub use eui::{Eui48, Eui64};
pub use ham_addr::HamAddr;
