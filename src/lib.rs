//! QoS probing and firewall-type detection service core: token
//! correlation, the UDP probe wire format, the firewall ingress and the
//! evidence collection that feeds firewall-type classification.

pub mod address;
pub mod config;
pub mod firewall;
pub mod http;
pub mod ipv4;
pub mod peer;
pub mod service;
pub mod udp;
pub mod wire;
