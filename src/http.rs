//! The values the HTTP endpoints exchange, and what each endpoint decides:
//! which QoS parameters to hand out, the firewall check's token, and the
//! firewall type reported once the sender addresses are in.

use vstd::prelude::*;

use crate::peer::PeerAddr;
use crate::service::{is_sentinel, token_key, QRequestData, QService};

verus! {

/// QoS type for public facing address information
pub const QOS_TYPE_ADDRESS: u32 = 1;

/// QoS type for checking latency
pub const QOS_TYPE_LATENCY: u32 = 2;

/// Number of probes the client should send when checking latency
pub const LATENCY_PROBE_COUNT: u32 = 5;

/// Size of the latency probes the client should send
pub const LATENCY_PROBE_SIZE: u32 = 60;

/// Firewall type reported for every completed check.
pub const FIRETYPE_DEFAULT: u32 = 2;

/// Answer to a QoS query: where and how to probe, and the token to tag the
/// probes with.
#[derive(Debug, Clone, Copy, PartialEq, Eq)]
pub struct QResponse {
    pub num_probes: u32,
    pub qos_port: u16,
    pub probe_size: u32,
    pub qos_ip: u32,
    pub request_id: u32,
    pub request_secret: u32,
}

#[derive(Debug, Clone, Copy, PartialEq, Eq)]
pub struct QQuery {
    pub port: u16,
    pub version: u32,
    pub qtyp: u32,
}

/// Answer to a firewall query: the addresses and ports to send firewall
/// datagrams to, and the token to tag them with.
#[derive(Debug, Clone)]
pub struct QFirewall {
    pub ips: QFirewallIps,
    pub num_interfaces: u32,
    pub ports: QFirewallPorts,
    pub request_id: u32,
    pub request_secret: u32,
}

#[derive(Debug, Clone)]
pub struct QFirewallIps {
    pub ip: Vec<u32>,
}

#[derive(Debug, Clone)]
pub struct QFirewallPorts {
    pub ports: Vec<u16>,
}

#[derive(Debug, Clone, Copy, PartialEq, Eq)]
pub struct QFirewallQuery {
    pub version: u32,
    pub number_interfaces: u32,
}

#[derive(Debug, Clone, Copy, PartialEq, Eq)]
pub struct QFireType {
    pub fire_type: u32,
}

#[derive(Debug, Clone, Copy, PartialEq, Eq)]
pub struct QFireTypeQuery {
    pub version: u32,
    pub request_id: u32,
    pub request_secret: u32,
    pub internal_ip: i32,
    pub internal_port: u16,
}

/// Parameters for an address probe, tagged with the reserved token `(1, 0)`.
pub fn qos_address(qos_ip: u32, qos_port: u16) -> (r: QResponse)
    ensures
        r == (QResponse {
            num_probes: 0,
            qos_port,
            probe_size: 0,
            qos_ip,
            request_id: 1,
            request_secret: 0,
        }),
{
    QResponse { num_probes: 0, qos_port, probe_size: 0, qos_ip, request_id: 1, request_secret: 0 }
}

/// Registers a latency probe for the query and returns its parameters;
/// `None` once the store has no token left to hand out.
pub fn qos_latency(service: &mut QService, query: &QQuery, qos_ip: u32, qos_port: u16) -> (r:
    Option<QResponse>)
    requires
        old(service).wf(),
    ensures
        final(service).wf(),
        final(service)@.receivers == old(service)@.receivers,
        final(service)@.senders == old(service)@.senders,
        final(service)@.pending == old(service)@.pending,
        r is None <==> !old(service).spec_can_allocate(),
        r is None ==> final(service)@ == old(service)@,
        r matches Some(resp) ==> {
            &&& resp.num_probes == LATENCY_PROBE_COUNT
            &&& resp.probe_size == LATENCY_PROBE_SIZE
            &&& resp.qos_ip == qos_ip
            &&& resp.qos_port == qos_port
            &&& !is_sentinel((resp.request_id, resp.request_secret))
            &&& final(service)@.next_id == old(service)@.next_id + 1
            &&& !old(service)@.requests.contains_key(token_key(resp.request_id, resp.request_secret))
            &&& final(service)@.requests == old(service)@.requests.insert(
                token_key(resp.request_id, resp.request_secret),
                QRequestData { q_type: query.qtyp, client_port: query.port, version: query.version },
            )
        },
{
    match service.create_request_data(query.qtyp, query.port, query.version) {
        Some((request_id, request_secret)) => Some(
            QResponse {
                num_probes: LATENCY_PROBE_COUNT,
                qos_port,
                probe_size: LATENCY_PROBE_SIZE,
                qos_ip,
                request_id,
                request_secret,
            },
        ),
        None => None,
    }
}

/// The all-zero answer to a query of a type this service does not know.
pub fn qos_unknown(query: &QQuery) -> (r: QResponse)
    ensures
        r == (QResponse {
            num_probes: 0,
            qos_port: 0,
            probe_size: 0,
            qos_ip: 0,
            request_id: 0,
            request_secret: 0,
        }),
{
    QResponse { num_probes: 0, qos_port: 0, probe_size: 0, qos_ip: 0, request_id: 0, request_secret: 0 }
}

/// Answers a QoS query by its type: address probes need no token, latency
/// probes get a fresh one, other types get the all-zero answer. `None`
/// only when a latency token was due and none is left.
pub fn qos(service: &mut QService, query: &QQuery, qos_ip: u32, qos_port: u16) -> (r: Option<
    QResponse,
>)
    requires
        old(service).wf(),
    ensures
        final(service).wf(),
        final(service)@.receivers == old(service)@.receivers,
        final(service)@.senders == old(service)@.senders,
        final(service)@.pending == old(service)@.pending,
        query.qtyp != QOS_TYPE_LATENCY ==> final(service)@ == old(service)@,
        query.qtyp == QOS_TYPE_ADDRESS ==> r == Some(
            QResponse {
                num_probes: 0,
                qos_port,
                probe_size: 0,
                qos_ip,
                request_id: 1,
                request_secret: 0,
            },
        ),
        query.qtyp == QOS_TYPE_LATENCY ==> {
            &&& r is None <==> !old(service).spec_can_allocate()
            &&& r matches Some(resp) ==> {
                &&& resp.num_probes == LATENCY_PROBE_COUNT
                &&& resp.probe_size == LATENCY_PROBE_SIZE
                &&& resp.qos_ip == qos_ip
                &&& resp.qos_port == qos_port
                &&& !is_sentinel((resp.request_id, resp.request_secret))
                &&& final(service)@.next_id == old(service)@.next_id + 1
                &&& !old(service)@.requests.contains_key(
                    token_key(resp.request_id, resp.request_secret),
                )
                &&& final(service)@.requests == old(service)@.requests.insert(
                    token_key(resp.request_id, resp.request_secret),
                    QRequestData {
                        q_type: query.qtyp,
                        client_port: query.port,
                        version: query.version,
                    },
                )
            }
        },
        query.qtyp != QOS_TYPE_ADDRESS && query.qtyp != QOS_TYPE_LATENCY ==> r == Some(
            QResponse {
                num_probes: 0,
                qos_port: 0,
                probe_size: 0,
                qos_ip: 0,
                request_id: 0,
                request_secret: 0,
            },
        ),
{
    if query.qtyp == QOS_TYPE_ADDRESS {
        Some(qos_address(qos_ip, qos_port))
    } else if query.qtyp == QOS_TYPE_LATENCY {
        qos_latency(service, query, qos_ip, qos_port)
    } else {
        Some(qos_unknown(query))
    }
}

/// Registers a firewall check and returns where to send its datagrams:
/// this service's address and firewall port; `None` once the store has no
/// token left to hand out.
pub fn firewall(service: &mut QService, query: &QFirewallQuery, self_ip: u32, firewall_port: u16) -> (r:
    Option<QFirewall>)
    requires
        old(service).wf(),
    ensures
        final(service).wf(),
        final(service)@.requests == old(service)@.requests,
        r is None <==> !old(service).spec_can_allocate(),
        r is None ==> final(service)@ == old(service)@,
        r matches Some(resp) ==> {
            &&& resp.ips.ip@ == seq![self_ip]
            &&& resp.num_interfaces == 1
            &&& resp.ports.ports@ == seq![firewall_port]
            &&& !is_sentinel((resp.request_id, resp.request_secret))
            &&& final(service)@.next_id == old(service)@.next_id + 1
            &&& !old(service)@.receivers.contains_key(
                token_key(resp.request_id, resp.request_secret),
            )
            &&& final(service)@.receivers == old(service)@.receivers.insert(
                token_key(resp.request_id, resp.request_secret),
                true,
            )
        },
{
    match service.create_firewall_data() {
        Some((request_id, request_secret)) => {
            let ip = vec![self_ip];
            let ports = vec![firewall_port];
            Some(
                QFirewall {
                    ips: QFirewallIps { ip },
                    num_interfaces: 1,
                    ports: QFirewallPorts { ports },
                    request_id,
                    request_secret,
                },
            )
        },
        None => None,
    }
}

/// The firewall type reported from the collected sender addresses. No
/// classification is made from them yet: every check reports
/// `FIRETYPE_DEFAULT`.
pub fn firetype(_addrs: &Vec<PeerAddr>) -> (r: QFireType)
    ensures
        r.fire_type == FIRETYPE_DEFAULT,
{
    QFireType { fire_type: FIRETYPE_DEFAULT }
}

} // verus!
