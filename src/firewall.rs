//! The firewall ingress, which routes each sender address to the channel
//! of the token its datagram names, and the collector that gathers those
//! addresses for a firewall-type check.

use tokio::sync::mpsc::UnboundedSender;
use vstd::prelude::*;

use crate::peer::PeerAddr;
use crate::service::{token_key, QService, RequestId, RequestSecret};
use crate::wire::{be_u32_value, read_be_u32};

verus! {

/// Length of the firewall datagram header on the wire.
pub const FIREWALL_HEADER_LEN: usize = 8;

/// Most sender addresses a firewall-type check collects.
pub const FIRETYPE_MAX_ADDRS: usize = 5;

/// Relies on tokio's `UnboundedSender::send`: queues `addr` on the channel,
/// or fails when its receiver has been dropped or closed.
#[verifier::external_body]
fn send_peer(tx: &UnboundedSender<PeerAddr>, addr: PeerAddr) -> bool {
    tx.send(addr).is_ok()
}

#[derive(Debug, Clone, Copy, PartialEq, Eq)]
pub struct FirewallRequest {
    pub request_id: RequestId,
    pub request_secret: RequestSecret,
}

impl FirewallRequest {
    /// Reads the token (two big-endian integers) off the front of
    /// `buffer`, leaving any extra bytes.
    pub fn from_buffer(buffer: &mut Vec<u8>) -> (r: Self)
        requires
            old(buffer)@.len() >= FIREWALL_HEADER_LEN,
        ensures
            r.request_id == be_u32_value(old(buffer)@.subrange(0, 4)),
            r.request_secret == be_u32_value(old(buffer)@.subrange(4, 8)),
            final(buffer)@ == old(buffer)@.subrange(8, old(buffer)@.len() as int),
    {
        let request_id = read_be_u32(buffer, 0);
        let request_secret = read_be_u32(buffer, 4);
        let rest = buffer.split_off(FIREWALL_HEADER_LEN);
        *buffer = rest;
        Self { request_id, request_secret }
    }
}

/// Why a firewall datagram was dropped.
#[derive(Debug, Clone, Copy, PartialEq, Eq)]
pub enum FirewallError {
    /// Shorter than the 8-byte header.
    MalformedPacket,
    /// Names a token the store has no firewall check for.
    UnknownToken,
}

/// The token a firewall datagram names, as its store key.
pub open spec fn firewall_packet_key(packet: Seq<u8>) -> u64 {
    token_key(be_u32_value(packet.subrange(0, 4)), be_u32_value(packet.subrange(4, 8)))
}

/// Finds where a firewall datagram's sender address must go: the sender
/// stored for the token the datagram names.
pub fn route_firewall_packet(service: &QService, packet: Vec<u8>) -> (r: Result<
    UnboundedSender<PeerAddr>,
    FirewallError,
>)
    ensures
        packet@.len() < FIREWALL_HEADER_LEN ==> r == Err::<UnboundedSender<PeerAddr>, FirewallError>(
            FirewallError::MalformedPacket,
        ),
        packet@.len() >= FIREWALL_HEADER_LEN ==> r == (if service@.senders.contains_key(
            firewall_packet_key(packet@),
        ) {
            Ok::<UnboundedSender<PeerAddr>, FirewallError>(
                service@.senders[firewall_packet_key(packet@)],
            )
        } else {
            Err(FirewallError::UnknownToken)
        }),
{
    let mut buffer = packet;
    if buffer.len() < FIREWALL_HEADER_LEN {
        return Err(FirewallError::MalformedPacket);
    }
    let message = FirewallRequest::from_buffer(&mut buffer);
    match service.get_firewall_tx(message.request_id, message.request_secret) {
        Some(tx) => Ok(tx),
        None => Err(FirewallError::UnknownToken),
    }
}

/// Handles one firewall datagram: the sender's address goes, unchanged,
/// onto the channel that `route_firewall_packet` picks. Nothing is ever
/// sent back, and the store is not changed. `Ok` tells whether the channel
/// still had a receiver to queue the address for.
pub fn handle_firewall_packet(service: &QService, packet: Vec<u8>, source: PeerAddr) -> (r: Result<
    bool,
    FirewallError,
>)
    ensures
        packet@.len() < FIREWALL_HEADER_LEN ==> r == Err::<bool, FirewallError>(
            FirewallError::MalformedPacket,
        ),
        packet@.len() >= FIREWALL_HEADER_LEN ==> {
            &&& r is Err <==> !service@.senders.contains_key(firewall_packet_key(packet@))
            &&& r is Err ==> r == Err::<bool, FirewallError>(FirewallError::UnknownToken)
        },
{
    match route_firewall_packet(service, packet) {
        Ok(tx) => Ok(send_peer(&tx, source)),
        Err(e) => Err(e),
    }
}

/// Whether collection has ended: the channel closed, or the limit of
/// addresses was reached.
pub open spec fn collect_done(state: (Seq<PeerAddr>, bool)) -> bool {
    state.1 || state.0.len() >= FIRETYPE_MAX_ADDRS
}

/// One channel event (`None`: the channel closed) applied to the collected
/// addresses and the closed flag. Once done, nothing changes.
pub open spec fn collect_step(state: (Seq<PeerAddr>, bool), event: Option<PeerAddr>) -> (
    Seq<PeerAddr>,
    bool,
) {
    if collect_done(state) {
        state
    } else {
        match event {
            None => (state.0, true),
            Some(a) => (state.0.push(a), false),
        }
    }
}

/// The state after a sequence of channel events, from nothing collected.
pub open spec fn collect_run(events: Seq<Option<PeerAddr>>) -> (Seq<PeerAddr>, bool)
    decreases events.len(),
{
    if events.len() == 0 {
        (Seq::empty(), false)
    } else {
        collect_step(collect_run(events.drop_last()), events.last())
    }
}

/// Gathers the sender addresses of one firewall-type check, as they come
/// off the token's channel.
pub struct FireTypeCollector {
    addrs: Vec<PeerAddr>,
    closed: bool,
}

impl View for FireTypeCollector {
    type V = (Seq<PeerAddr>, bool);

    closed spec fn view(&self) -> (Seq<PeerAddr>, bool) {
        (self.addrs@, self.closed)
    }
}

impl FireTypeCollector {
    pub closed spec fn wf(&self) -> bool {
        self.addrs@.len() <= FIRETYPE_MAX_ADDRS
    }

    pub fn new() -> (r: Self)
        ensures
            r.wf(),
            r@ == collect_run(Seq::empty()),
    {
        FireTypeCollector { addrs: Vec::new(), closed: false }
    }

    pub fn is_done(&self) -> (r: bool)
        ensures
            r == collect_done(self@),
    {
        self.closed || self.addrs.len() >= FIRETYPE_MAX_ADDRS
    }

    /// Applies the next channel event and tells whether collection is over.
    pub fn observe(&mut self, event: Option<PeerAddr>) -> (done: bool)
        requires
            old(self).wf(),
        ensures
            final(self).wf(),
            final(self)@ == collect_step(old(self)@, event),
            done == collect_done(final(self)@),
    {
        if !self.is_done() {
            match event {
                None => {
                    self.closed = true;
                },
                Some(a) => {
                    self.addrs.push(a);
                },
            }
        }
        self.is_done()
    }

    /// The addresses collected so far, in the order they arrived.
    pub fn addrs(&self) -> (r: Vec<PeerAddr>)
        ensures
            r@ == self@.0,
    {
        let mut r: Vec<PeerAddr> = Vec::new();
        let mut i: usize = 0;
        while i < self.addrs.len()
            invariant
                i <= self.addrs@.len(),
                r@ == self.addrs@.subrange(0, i as int),
            decreases self.addrs@.len() - i,
        {
            r.push(self.addrs[i]);
            assert(self.addrs@.subrange(0, i + 1) =~= self.addrs@.subrange(0, i as int).push(
                self.addrs@[i as int],
            ));
            i = i + 1;
        }
        assert(self.addrs@.subrange(0, i as int) =~= self.addrs@);
        r
    }
}

/// A firewall-type check never holds more than `FIRETYPE_MAX_ADDRS`
/// addresses, whatever arrives on the channel.
pub proof fn lemma_collect_bounded(events: Seq<Option<PeerAddr>>)
    ensures
        collect_run(events).0.len() <= FIRETYPE_MAX_ADDRS,
    decreases events.len(),
{
    if events.len() > 0 {
        lemma_collect_bounded(events.drop_last());
    }
}

/// Once a firewall-type check is done (the limit reached or the channel
/// closed), later events change nothing: addresses that arrive after the
/// fifth are not collected.
pub proof fn lemma_collect_stops(events: Seq<Option<PeerAddr>>, later: Seq<Option<PeerAddr>>)
    requires
        collect_done(collect_run(events)),
    ensures
        collect_run(events + later) == collect_run(events),
    decreases later.len(),
{
    if later.len() > 0 {
        let shorter = later.drop_last();
        lemma_collect_stops(events, shorter);
        assert((events + later).drop_last() =~= events + shorter);
    } else {
        assert(events + later =~= events);
    }
}

/// The channel events for addresses that arrive one after another.
pub open spec fn arrivals(addrs: Seq<PeerAddr>) -> Seq<Option<PeerAddr>> {
    addrs.map_values(|a: PeerAddr| Some(a))
}

/// The first `FIRETYPE_MAX_ADDRS` of `addrs`, or all of them if fewer.
pub open spec fn first_addrs(addrs: Seq<PeerAddr>) -> Seq<PeerAddr> {
    if addrs.len() <= FIRETYPE_MAX_ADDRS {
        addrs
    } else {
        addrs.take(FIRETYPE_MAX_ADDRS as int)
    }
}

/// Of the addresses that arrive on the channel, a firewall-type check keeps
/// the first `FIRETYPE_MAX_ADDRS`, in arrival order; it is done exactly
/// when it holds that many.
pub proof fn lemma_collect_first_addrs(addrs: Seq<PeerAddr>)
    ensures
        collect_run(arrivals(addrs)).0 == first_addrs(addrs),
        !collect_run(arrivals(addrs)).1,
        collect_done(collect_run(arrivals(addrs))) <==> addrs.len() >= FIRETYPE_MAX_ADDRS,
    decreases addrs.len(),
{
    if addrs.len() > 0 {
        let shorter = addrs.drop_last();
        lemma_collect_first_addrs(shorter);
        assert(arrivals(addrs).drop_last() =~= arrivals(shorter));
        assert(arrivals(addrs).last() == Some(addrs.last()));
        if shorter.len() >= FIRETYPE_MAX_ADDRS {
            assert(first_addrs(shorter) =~= first_addrs(addrs));
        } else {
            assert(first_addrs(shorter).push(addrs.last()) =~= first_addrs(addrs));
        }
    } else {
        assert(arrivals(addrs) =~= Seq::empty());
        assert(first_addrs(addrs) =~= Seq::empty());
    }
}

/// When the channel closes after some addresses, the check ends with the
/// first `FIRETYPE_MAX_ADDRS` of them.
pub proof fn lemma_collect_until_closed(addrs: Seq<PeerAddr>)
    ensures
        collect_run(arrivals(addrs).push(None)).0 == first_addrs(addrs),
        collect_done(collect_run(arrivals(addrs).push(None))),
{
    lemma_collect_first_addrs(addrs);
    assert(arrivals(addrs).push(None).drop_last() =~= arrivals(addrs));
}

} // verus!
