//! The service's ports and advertised address.

use vstd::prelude::*;

verus! {

#[derive(Debug, Clone, Copy, PartialEq, Eq)]
pub struct Config {
    pub http_port: u16,
    pub udp_port_1: u16,
    pub udp_port_2: u16,
    /// The advertised IPv4 address, its octets most significant first.
    pub self_address: u32,
}

impl Default for Config {
    /// Ports 17499 (HTTP), 17500 (QoS) and 17501 (firewall) on 127.0.0.1.
    fn default() -> (r: Self)
        ensures
            r == (Config {
                http_port: 17499,
                udp_port_1: 17500,
                udp_port_2: 17501,
                self_address: 0x7f00_0001,
            }),
    {
        Config { http_port: 17499, udp_port_1: 17500, udp_port_2: 17501, self_address: 0x7f00_0001 }
    }
}

} // verus!
