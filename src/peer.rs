//! A UDP sender's socket address as plain values.

use vstd::prelude::*;

verus! {

#[allow(inconsistent_fields)]
#[derive(Debug, Clone, Copy, PartialEq, Eq)]
pub enum PeerAddr {
    /// An IPv4 address (octets most significant first) and port.
    V4 { ip: u32, port: u16 },
    /// An IPv6 address (octets most significant first) and port.
    V6 { ip: u128, port: u16 },
}

} // verus!
