//! The address of the host under scan.

use vstd::prelude::*;

verus! {

/// An IP address, held as the plain numbers it is written with.
///
/// The scan never looks inside it: it is handed to every probe as it came.
#[derive(Clone, Copy, Debug, PartialEq, Eq)]
pub enum IpAddress {
    /// The four octets of an IPv4 address, first octet first.
    V4([u8; 4]),
    /// The eight 16-bit segments of an IPv6 address, first segment first.
    V6([u16; 8]),
}

impl IpAddress {
    /// The IPv4 loopback address, `127.0.0.1`.
    pub fn localhost() -> (address: IpAddress)
        ensures
            address matches IpAddress::V4(octets) && octets@ == seq![127u8, 0u8, 0u8, 1u8],
    {
        IpAddress::V4([127, 0, 0, 1])
    }
}

} // verus!
