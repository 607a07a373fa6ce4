//! The QoS probe wire format: a 16-byte big-endian header, then either an
//! address-probe body (a timestamp) or a latency-probe body (a probe count
//! and a client-supplied payload).

use vstd::prelude::*;

use crate::peer::PeerAddr;
use crate::service::{token_key, QRequestData, QService};
use crate::wire::{
    be_u16_bytes, be_u32_bytes, be_u32_value, le_u32_bytes, le_u32_value, put_be_u16, put_be_u32,
    put_le_u32, read_be_u32, lemma_be_u32_round_trip, lemma_le_u32_round_trip,
};

verus! {

/// Length of the probe header on the wire.
pub const QOS_HEADER_LEN: usize = 16;

/// Bandwidth estimate placed in every latency-probe response.
pub const QOS_UBPS: u32 = 0x005B8D80;

/// Trailing payload bytes that a latency-probe response does not echo.
pub const QOS_PAYLOAD_TRIM: usize = 6;

#[derive(Debug, Clone, Copy, PartialEq, Eq)]
pub struct QosHeader {
    pub u1: u32,
    pub request_id: u32,
    pub request_secret: u32,
    pub probe_number: u32,
}

/// The header that the first sixteen bytes of `b` hold.
pub open spec fn decode_header(b: Seq<u8>) -> QosHeader
    recommends
        b.len() >= 16,
{
    QosHeader {
        u1: be_u32_value(b.subrange(0, 4)),
        request_id: be_u32_value(b.subrange(4, 8)),
        request_secret: be_u32_value(b.subrange(8, 12)),
        probe_number: be_u32_value(b.subrange(12, 16)),
    }
}

impl QosHeader {
    /// The sixteen bytes of the header on the wire.
    pub open spec fn spec_bytes(self) -> Seq<u8> {
        be_u32_bytes(self.u1) + be_u32_bytes(self.request_id) + be_u32_bytes(self.request_secret)
            + be_u32_bytes(self.probe_number)
    }

    /// The reserved token `(1, 0)` marks an uncorrelated address probe.
    pub open spec fn spec_is_address_probe(self) -> bool {
        self.request_id == 1 && self.request_secret == 0
    }

    /// Reads a header off the front of `header`, leaving what follows it.
    pub fn from_buffer(header: &mut Vec<u8>) -> (r: QosHeader)
        requires
            old(header)@.len() >= QOS_HEADER_LEN,
        ensures
            r == decode_header(old(header)@),
            final(header)@ == old(header)@.subrange(16, old(header)@.len() as int),
    {
        let u1 = read_be_u32(header, 0);
        let request_id = read_be_u32(header, 4);
        let request_secret = read_be_u32(header, 8);
        let probe_number = read_be_u32(header, 12);
        let rest = header.split_off(QOS_HEADER_LEN);
        *header = rest;
        QosHeader { u1, request_id, request_secret, probe_number }
    }

    /// Appends the header's sixteen bytes to `out`.
    pub fn write(&self, out: &mut Vec<u8>)
        ensures
            final(out)@ == old(out)@ + self.spec_bytes(),
    {
        put_be_u32(out, self.u1);
        put_be_u32(out, self.request_id);
        put_be_u32(out, self.request_secret);
        put_be_u32(out, self.probe_number);
        assert(out@ =~= old(out)@ + self.spec_bytes());
    }

    pub fn is_address_probe(&self) -> (r: bool)
        ensures
            r == self.spec_is_address_probe(),
    {
        self.request_id == 1 && self.request_secret == 0
    }
}

/// Decoding the bytes that `write` produces gives back the same header.
pub proof fn lemma_header_round_trip(h: QosHeader)
    ensures
        h.spec_bytes().len() == 16,
        decode_header(h.spec_bytes()) == h,
{
    let b = h.spec_bytes();
    lemma_be_u32_round_trip(h.u1);
    lemma_be_u32_round_trip(h.request_id);
    lemma_be_u32_round_trip(h.request_secret);
    lemma_be_u32_round_trip(h.probe_number);
    assert(b.subrange(0, 4) =~= be_u32_bytes(h.u1));
    assert(b.subrange(4, 8) =~= be_u32_bytes(h.request_id));
    assert(b.subrange(8, 12) =~= be_u32_bytes(h.request_secret));
    assert(b.subrange(12, 16) =~= be_u32_bytes(h.probe_number));
}

#[derive(Debug, Clone, Copy, PartialEq, Eq)]
pub struct QosRequestV1 {
    pub timestamp: u32,
}

impl QosRequestV1 {
    /// Reads an address-probe body (a big-endian timestamp) off the front of
    /// `buffer`, leaving any extra bytes.
    pub fn from_buffer(buffer: &mut Vec<u8>) -> (r: Self)
        requires
            old(buffer)@.len() >= 4,
        ensures
            r.timestamp == be_u32_value(old(buffer)@.subrange(0, 4)),
            final(buffer)@ == old(buffer)@.subrange(4, old(buffer)@.len() as int),
    {
        let timestamp = read_be_u32(buffer, 0);
        let rest = buffer.split_off(4);
        *buffer = rest;
        Self { timestamp }
    }
}

#[derive(Debug, Clone)]
pub struct QosRequestV2 {
    pub probe_count: u32,
    pub payload: Vec<u8>,
}

impl QosRequestV2 {
    /// Reads a latency-probe body (a big-endian probe count, then the
    /// payload) and consumes all of `buffer`.
    pub fn from_buffer(buffer: &mut Vec<u8>) -> (r: Self)
        requires
            old(buffer)@.len() >= 4,
        ensures
            r.probe_count == be_u32_value(old(buffer)@.subrange(0, 4)),
            r.payload@ == old(buffer)@.subrange(4, old(buffer)@.len() as int),
            final(buffer)@.len() == 0,
    {
        let probe_count = read_be_u32(buffer, 0);
        let payload = buffer.split_off(4);
        buffer.clear();
        Self { probe_count, payload }
    }
}

/// Response to an address probe: the header echoed, the client's timestamp,
/// the address and port the service sees for the client, then four zero bytes.
#[derive(Debug, Clone, Copy, PartialEq, Eq)]
pub struct QosResponseV1 {
    pub header: QosHeader,
    pub timestamp: u32,
    /// IPv4 address, its octets most significant first.
    pub ip: u32,
    pub port: u16,
}

impl QosResponseV1 {
    pub open spec fn spec_bytes(self) -> Seq<u8> {
        self.header.spec_bytes() + be_u32_bytes(self.timestamp) + be_u32_bytes(self.ip)
            + be_u16_bytes(self.port) + seq![0u8, 0u8, 0u8, 0u8]
    }

    pub fn write(&self, out: &mut Vec<u8>)
        ensures
            final(out)@ == old(out)@ + self.spec_bytes(),
            final(out)@.len() == old(out)@.len() + 30,
    {
        self.header.write(out);
        put_be_u32(out, self.timestamp);
        put_be_u32(out, self.ip);
        put_be_u16(out, self.port);
        out.push(0u8);
        out.push(0u8);
        out.push(0u8);
        out.push(0u8);
        assert(out@ =~= old(out)@ + self.spec_bytes());
    }
}

/// Response to a latency probe: the header echoed, the probe count in
/// little-endian order, the bandwidth estimate, the client's registered
/// port, then the echoed payload.
#[derive(Debug, Clone)]
pub struct QosResponseV2 {
    pub header: QosHeader,
    pub probe_count: u32,
    pub ubps: u32,
    pub port: u16,
    pub payload: Vec<u8>,
}

impl QosResponseV2 {
    pub open spec fn spec_bytes(self) -> Seq<u8> {
        self.header.spec_bytes() + le_u32_bytes(self.probe_count) + be_u32_bytes(self.ubps)
            + be_u16_bytes(self.port) + self.payload@
    }

    pub fn write(&self, out: &mut Vec<u8>)
        ensures
            final(out)@ == old(out)@ + self.spec_bytes(),
            final(out)@.len() == old(out)@.len() + 26 + self.payload@.len(),
    {
        self.header.write(out);
        put_le_u32(out, self.probe_count);
        put_be_u32(out, self.ubps);
        put_be_u16(out, self.port);
        let mut i: usize = 0;
        while i < self.payload.len()
            invariant
                i <= self.payload@.len(),
                out@ == old(out)@ + self.header.spec_bytes() + le_u32_bytes(self.probe_count)
                    + be_u32_bytes(self.ubps) + be_u16_bytes(self.port) + self.payload@.subrange(
                    0,
                    i as int,
                ),
            decreases self.payload@.len() - i,
        {
            out.push(self.payload[i]);
            assert(self.payload@.subrange(0, i + 1) =~= self.payload@.subrange(0, i as int).push(
                self.payload@[i as int],
            ));
            i = i + 1;
        }
        assert(self.payload@.subrange(0, i as int) =~= self.payload@);
    }
}

/// Little-endian decoding of the probe-count field of a latency-probe
/// response gives back the probe count it was built from.
pub proof fn lemma_probe_count_le(r: QosResponseV2)
    ensures
        r.spec_bytes().len() >= 20,
        le_u32_value(r.spec_bytes().subrange(16, 20)) == r.probe_count,
{
    lemma_header_round_trip(r.header);
    lemma_le_u32_round_trip(r.probe_count);
    assert(r.spec_bytes().subrange(16, 20) =~= le_u32_bytes(r.probe_count));
}

/// Why a datagram gets no response.
#[derive(Debug, Clone, Copy, PartialEq, Eq)]
pub enum QosError {
    /// Too short for its header or its body.
    MalformedPacket,
    /// The response only has room for an IPv4 address.
    Ipv6Sender,
    /// A latency probe whose token the store does not know.
    UnknownToken,
}

/// Whether `ip` is a loopback or private-network IPv4 address
/// (127.0.0.0/8, 10.0.0.0/8, 172.16.0.0/12, 192.168.0.0/16).
pub open spec fn spec_is_local_ipv4(ip: u32) -> bool {
    let a = ip / 0x100_0000;
    let b = ip / 0x1_0000 % 0x100;
    a == 127 || a == 10 || (a == 172 && 16 <= b < 32) || (a == 192 && b == 168)
}

pub fn is_local_ipv4(ip: u32) -> (r: bool)
    ensures
        r == spec_is_local_ipv4(ip),
{
    let a = ip / 0x100_0000;
    let b = ip / 0x1_0000 % 0x100;
    a == 127 || a == 10 || (a == 172 && 16 <= b && b < 32) || (a == 192 && b == 168)
}

/// Whether to ask the public address resolver for the address to report
/// to a sender: only when resolving is enabled and the sender is seen
/// through a loopback or private address.
pub fn wants_public_address(source: PeerAddr, resolve_enabled: bool) -> (r: bool)
    ensures
        r == (resolve_enabled && match source {
            PeerAddr::V4 { ip, .. } => spec_is_local_ipv4(ip),
            PeerAddr::V6 { .. } => false,
        }),
{
    match source {
        PeerAddr::V4 { ip, .. } => resolve_enabled && is_local_ipv4(ip),
        PeerAddr::V6 { .. } => false,
    }
}

/// The reply to one QoS datagram from `source`, given the latency probes
/// registered in the store and the resolved public address, if any
/// (otherwise the sender's own address is reported).
pub open spec fn qos_reply(
    requests: Map<u64, QRequestData>,
    packet: Seq<u8>,
    source: PeerAddr,
    public_ip: Option<u32>,
) -> Result<Seq<u8>, QosError> {
    if packet.len() < 16 {
        Err(QosError::MalformedPacket)
    } else {
        match source {
            PeerAddr::V6 { .. } => Err(QosError::Ipv6Sender),
            PeerAddr::V4 { ip, port } => {
                let h = decode_header(packet);
                let body = packet.subrange(16, packet.len() as int);
                if h.spec_is_address_probe() {
                    if body.len() < 4 {
                        Err(QosError::MalformedPacket)
                    } else {
                        Ok(
                            QosResponseV1 {
                                header: h,
                                timestamp: be_u32_value(body.subrange(0, 4)),
                                ip: match public_ip {
                                    Some(a) => a,
                                    None => ip,
                                },
                                port,
                            }.spec_bytes(),
                        )
                    }
                } else if body.len() < 4 + QOS_PAYLOAD_TRIM {
                    Err(QosError::MalformedPacket)
                } else if !requests.contains_key(token_key(h.request_id, h.request_secret)) {
                    Err(QosError::UnknownToken)
                } else {
                    let data = requests[token_key(h.request_id, h.request_secret)];
                    Ok(
                        h.spec_bytes() + le_u32_bytes(be_u32_value(body.subrange(0, 4)))
                            + be_u32_bytes(QOS_UBPS) + be_u16_bytes(data.client_port)
                            + body.subrange(4, body.len() - QOS_PAYLOAD_TRIM),
                    )
                }
            },
        }
    }
}

/// Builds the response to one QoS datagram: an address probe (token
/// `(1, 0)`) is answered with the sender's timestamp and public address, a
/// latency probe with its probe count, the bandwidth estimate, the port
/// registered for its token and its payload less the last six bytes.
pub fn handle_qos_packet(
    service: &QService,
    packet: Vec<u8>,
    source: PeerAddr,
    public_ip: Option<u32>,
) -> (r: Result<Vec<u8>, QosError>)
    ensures
        match r {
            Ok(bytes) => qos_reply(service@.requests, packet@, source, public_ip) == Ok::<
                Seq<u8>,
                QosError,
            >(bytes@),
            Err(e) => qos_reply(service@.requests, packet@, source, public_ip) == Err::<
                Seq<u8>,
                QosError,
            >(e),
        },
{
    let mut buffer = packet;
    if buffer.len() < QOS_HEADER_LEN {
        return Err(QosError::MalformedPacket);
    }
    let (ip, port) = match source {
        PeerAddr::V4 { ip, port } => (ip, port),
        PeerAddr::V6 { .. } => {
            return Err(QosError::Ipv6Sender);
        },
    };
    let header = QosHeader::from_buffer(&mut buffer);
    let ghost body = buffer@;
    let mut out: Vec<u8> = Vec::new();
    if header.is_address_probe() {
        if buffer.len() < 4 {
            return Err(QosError::MalformedPacket);
        }
        let request = QosRequestV1::from_buffer(&mut buffer);
        let reported = match public_ip {
            Some(a) => a,
            None => ip,
        };
        let response = QosResponseV1 { header, timestamp: request.timestamp, ip: reported, port };
        response.write(&mut out);
        assert(out@ =~= response.spec_bytes());
    } else {
        if buffer.len() < 4 + QOS_PAYLOAD_TRIM {
            return Err(QosError::MalformedPacket);
        }
        let data = match service.get_request_data(header.request_id, header.request_secret) {
            Some(d) => d,
            None => {
                return Err(QosError::UnknownToken);
            },
        };
        let request = QosRequestV2::from_buffer(&mut buffer);
        let mut payload = request.payload;
        let keep = payload.len() - QOS_PAYLOAD_TRIM;
        payload.truncate(keep);
        assert(payload@ =~= body.subrange(4, body.len() - QOS_PAYLOAD_TRIM));
        let response = QosResponseV2 {
            header,
            probe_count: request.probe_count,
            ubps: QOS_UBPS,
            port: data.client_port,
            payload,
        };
        response.write(&mut out);
        assert(out@ =~= response.spec_bytes());
    }
    Ok(out)
}

/// An address-probe reply is always 30 bytes; a latency-probe reply is
/// 16 + 4 + 4 + 2 bytes plus the payload less its last six bytes, and its
/// probe-count field read little-endian is the count the probe carried.
pub proof fn lemma_reply_layout(
    requests: Map<u64, QRequestData>,
    packet: Seq<u8>,
    source: PeerAddr,
    public_ip: Option<u32>,
)
    ensures
        match qos_reply(requests, packet, source, public_ip) {
            Ok(b) => if decode_header(packet).spec_is_address_probe() {
                b.len() == 30
            } else {
                &&& b.len() == 16 + 4 + 4 + 2 + (packet.len() - 16 - 4 - QOS_PAYLOAD_TRIM)
                &&& le_u32_value(b.subrange(16, 20)) == be_u32_value(packet.subrange(16, 20))
            },
            Err(_) => true,
        },
{
    if packet.len() >= 16 {
        let h = decode_header(packet);
        lemma_header_round_trip(h);
        if let PeerAddr::V4 { .. } = source {
            let body = packet.subrange(16, packet.len() as int);
            if !h.spec_is_address_probe() && body.len() >= 4 + QOS_PAYLOAD_TRIM {
                let count = be_u32_value(body.subrange(0, 4));
                assert(body.subrange(0, 4) =~= packet.subrange(16, 20));
                lemma_le_u32_round_trip(count);
                if let Ok(b) = qos_reply(requests, packet, source, public_ip) {
                    assert(b.subrange(16, 20) =~= le_u32_bytes(count));
                }
            }
        }
    }
}

} // verus!
