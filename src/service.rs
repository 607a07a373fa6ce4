//! The correlation store: request tokens handed out over HTTP, the latency
//! probe parameters registered under them, and the per-token channels that
//! carry the addresses seen by the firewall ingress.

use std::collections::HashMap;

use tokio::sync::mpsc::{UnboundedReceiver, UnboundedSender};
use vstd::prelude::*;
use vstd::std_specs::hash::group_hash_axioms;

use crate::peer::PeerAddr;

verus! {

broadcast use group_hash_axioms;

pub type RequestId = u32;

pub type RequestSecret = u32;

#[verifier::external_type_specification]
#[verifier::external_body]
#[verifier::reject_recursive_types(T)]
pub struct ExUnboundedSender<T>(UnboundedSender<T>);

#[verifier::external_type_specification]
#[verifier::external_body]
#[verifier::reject_recursive_types(T)]
pub struct ExUnboundedReceiver<T>(UnboundedReceiver<T>);

/// Relies on rand's `OsRng::next_u32`: a value drawn from the operating
/// system's generator. Nothing is known of it.
#[verifier::external_body]
fn random_u32() -> u32 {
    rand::RngCore::next_u32(&mut rand::rngs::OsRng)
}

/// Relies on tokio's `mpsc::unbounded_channel`: a fresh sender and receiver
/// of one channel.
#[verifier::external_body]
fn new_channel() -> (UnboundedSender<PeerAddr>, UnboundedReceiver<PeerAddr>) {
    tokio::sync::mpsc::unbounded_channel()
}

/// Relies on `Clone` of tokio's `UnboundedSender`: another handle on the same
/// channel.
#[verifier::external_body]
fn clone_sender(tx: &UnboundedSender<PeerAddr>) -> (r: UnboundedSender<PeerAddr>)
    ensures
        r == *tx,
{
    tx.clone()
}

/// The first request id handed out; `1` is kept for the address-probe token.
pub const FIRST_REQUEST_ID: u64 = 2;

/// Number of distinct secrets for one request id.
pub const SECRET_SPACE: u64 = 0x1_0000_0000;

/// The single integer under which a token is stored.
pub open spec fn token_key(id: RequestId, secret: RequestSecret) -> u64 {
    (id as int * SECRET_SPACE + secret as int) as u64
}

pub open spec fn is_sentinel(token: (RequestId, RequestSecret)) -> bool {
    token.0 == 1 && token.1 == 0
}

fn key_of(id: RequestId, secret: RequestSecret) -> (r: u64)
    ensures
        r == token_key(id, secret),
        r as int == id as int * SECRET_SPACE + secret as int,
{
    (id as u64) * SECRET_SPACE + (secret as u64)
}

/// Parameters of a latency probe, registered when its token is handed out.
#[derive(Debug, Clone, Copy, PartialEq, Eq)]
pub struct QRequestData {
    pub q_type: u32,
    pub client_port: u16,
    pub version: u32,
}

/// A firewall check's channel: the sender stays, the receiver can be taken
/// out once.
pub struct QFirewallData {
    tx: UnboundedSender<PeerAddr>,
    rx: Option<UnboundedReceiver<PeerAddr>>,
}

/// What the store holds, seen as maps keyed by `token_key`.
pub struct QServiceView {
    /// Latency probe parameters by token.
    pub requests: Map<u64, QRequestData>,
    /// Firewall tokens, each with whether its receiver is still in the store.
    pub receivers: Map<u64, bool>,
    /// Firewall tokens, each with the sender its channel was made with.
    pub senders: Map<u64, UnboundedSender<PeerAddr>>,
    /// Firewall tokens, each with the receiver still waiting in the store.
    pub pending: Map<u64, Option<UnboundedReceiver<PeerAddr>>>,
    /// The id the next token will carry.
    pub next_id: nat,
}

/// A store that only gains entries: every record of `a` is still in `b`,
/// unchanged.
pub open spec fn requests_kept(a: Map<u64, QRequestData>, b: Map<u64, QRequestData>) -> bool {
    forall|k: u64| a.contains_key(k) ==> #[trigger] b.contains_key(k) && b[k] == a[k]
}

/// Whether taking the receiver of `key` out of `receivers` yields one.
pub open spec fn yields_receiver(receivers: Map<u64, bool>, key: u64) -> bool {
    receivers.contains_key(key) && receivers[key]
}

/// The receivers after the one of `key` has been taken.
pub open spec fn after_take(receivers: Map<u64, bool>, key: u64) -> Map<u64, bool> {
    if receivers.contains_key(key) {
        receivers.insert(key, false)
    } else {
        receivers
    }
}

pub struct QService {
    next_id: u64,
    m1: HashMap<u64, QRequestData>,
    m2: HashMap<u64, QFirewallData>,
}

impl View for QService {
    type V = QServiceView;

    closed spec fn view(&self) -> QServiceView {
        QServiceView {
            requests: self.m1@,
            receivers: Map::new(|k: u64| self.m2@.contains_key(k), |k: u64| self.m2@[k].rx.is_some()),
            senders: Map::new(|k: u64| self.m2@.contains_key(k), |k: u64| self.m2@[k].tx),
            pending: Map::new(|k: u64| self.m2@.contains_key(k), |k: u64| self.m2@[k].rx),
            next_id: self.next_id as nat,
        }
    }
}

impl Default for QService {
    fn default() -> (r: Self)
        ensures
            r.wf(),
            r@.requests.is_empty(),
            r@.receivers.is_empty(),
            r@.senders.is_empty(),
            r@.pending.is_empty(),
            r@.next_id == FIRST_REQUEST_ID,
    {
        QService::new()
    }
}

impl QService {
    /// Ids stay in range, and every stored token's id is below the next one.
    pub closed spec fn wf(&self) -> bool {
        &&& FIRST_REQUEST_ID <= self.next_id <= SECRET_SPACE
        &&& forall|k: u64| #[trigger] self.m1@.contains_key(k) ==> k < self.next_id * SECRET_SPACE
        &&& forall|k: u64| #[trigger] self.m2@.contains_key(k) ==> k < self.next_id * SECRET_SPACE
    }

    /// Whether a token can still be handed out: ids are never reused, so the
    /// store runs out once every id has been given.
    pub open spec fn spec_can_allocate(&self) -> bool {
        self@.next_id < SECRET_SPACE
    }

    pub fn new() -> (r: Self)
        ensures
            r.wf(),
            r@.requests.is_empty(),
            r@.receivers.is_empty(),
            r@.senders.is_empty(),
            r@.pending.is_empty(),
            r@.next_id == FIRST_REQUEST_ID,
    {
        let r = QService { next_id: FIRST_REQUEST_ID, m1: HashMap::new(), m2: HashMap::new() };
        assert(r@.receivers =~= Map::empty());
        assert(r@.senders =~= Map::empty());
        assert(r@.pending =~= Map::empty());
        r
    }

    pub fn can_allocate(&self) -> (r: bool)
        ensures
            r == self.spec_can_allocate(),
    {
        self.next_id < SECRET_SPACE
    }

    /// A fresh token: the next id with a random secret. Every stored token
    /// has a smaller id, so the pair is free.
    fn next_token(&mut self) -> (r: (RequestId, RequestSecret))
        requires
            old(self).wf(),
            old(self).spec_can_allocate(),
        ensures
            r.0 == old(self).next_id,
            r.0 >= FIRST_REQUEST_ID,
            final(self).next_id == old(self).next_id + 1,
            final(self).m1 == old(self).m1,
            final(self).m2 == old(self).m2,
            !old(self).m1@.contains_key(token_key(r.0, r.1)),
            !old(self).m2@.contains_key(token_key(r.0, r.1)),
            final(self).wf(),
    {
        let id = self.next_id as u32;
        let secret = random_u32();
        self.next_id = self.next_id + 1;
        (id, secret)
    }

    /// Registers a latency probe and returns its token; `None` once every id
    /// has been handed out.
    pub fn create_request_data(&mut self, q_type: u32, client_port: u16, version: u32) -> (r:
        Option<(RequestId, RequestSecret)>)
        requires
            old(self).wf(),
        ensures
            final(self).wf(),
            requests_kept(old(self)@.requests, final(self)@.requests),
            final(self)@.receivers == old(self)@.receivers,
            final(self)@.senders == old(self)@.senders,
            final(self)@.pending == old(self)@.pending,
            match r {
                None => !old(self).spec_can_allocate() && final(self)@ == old(self)@,
                Some(t) => {
                    &&& old(self).spec_can_allocate()
                    &&& !is_sentinel(t)
                    &&& t.0 == old(self)@.next_id
                    &&& final(self)@.next_id == old(self)@.next_id + 1
                    &&& !old(self)@.requests.contains_key(token_key(t.0, t.1))
                    &&& final(self)@.requests == old(self)@.requests.insert(
                        token_key(t.0, t.1),
                        QRequestData { q_type, client_port, version },
                    )
                },
            },
    {
        if !self.can_allocate() {
            return None;
        }
        let (id, secret) = self.next_token();
        let key = key_of(id, secret);
        let data = QRequestData { q_type, client_port, version };
        self.m1.insert(key, data);
        Some((id, secret))
    }

    /// The latency probe parameters registered under a token, if any.
    pub fn get_request_data(&self, id: RequestId, secret: RequestSecret) -> (r: Option<
        QRequestData,
    >)
        ensures
            r == (if self@.requests.contains_key(token_key(id, secret)) {
                Some(self@.requests[token_key(id, secret)])
            } else {
                None
            }),
    {
        let key = key_of(id, secret);
        match self.m1.get(&key) {
            Some(data) => Some(*data),
            None => None,
        }
    }

    /// Registers a firewall check, with a fresh channel whose receiver waits
    /// in the store, and returns its token; `None` once every id has been
    /// handed out.
    pub fn create_firewall_data(&mut self) -> (r: Option<(RequestId, RequestSecret)>)
        requires
            old(self).wf(),
        ensures
            final(self).wf(),
            final(self)@.requests == old(self)@.requests,
            match r {
                None => !old(self).spec_can_allocate() && final(self)@ == old(self)@,
                Some(t) => {
                    &&& old(self).spec_can_allocate()
                    &&& !is_sentinel(t)
                    &&& t.0 == old(self)@.next_id
                    &&& final(self)@.next_id == old(self)@.next_id + 1
                    &&& !old(self)@.receivers.contains_key(token_key(t.0, t.1))
                    &&& final(self)@.receivers == old(self)@.receivers.insert(
                        token_key(t.0, t.1),
                        true,
                    )
                    &&& final(self)@.senders.contains_key(token_key(t.0, t.1))
                    &&& final(self)@.senders.remove(token_key(t.0, t.1)) == old(self)@.senders
                    &&& final(self)@.pending.contains_key(token_key(t.0, t.1))
                    &&& final(self)@.pending[token_key(t.0, t.1)] is Some
                    &&& final(self)@.pending.remove(token_key(t.0, t.1)) == old(self)@.pending
                },
            },
    {
        if !self.can_allocate() {
            return None;
        }
        let (id, secret) = self.next_token();
        let key = key_of(id, secret);
        let (tx, rx) = new_channel();
        self.m2.insert(key, QFirewallData { tx, rx: Some(rx) });
        assert(self@.receivers =~= old(self)@.receivers.insert(key, true));
        assert(self@.senders.remove(key) =~= old(self)@.senders);
        assert(self@.pending.remove(key) =~= old(self)@.pending);
        Some((id, secret))
    }

    /// Another sender on a firewall check's channel, if the token is known.
    pub fn get_firewall_tx(&self, id: RequestId, secret: RequestSecret) -> (r: Option<
        UnboundedSender<PeerAddr>,
    >)
        ensures
            r == (if self@.senders.contains_key(token_key(id, secret)) {
                Some(self@.senders[token_key(id, secret)])
            } else {
                None
            }),
            r.is_some() == self@.receivers.contains_key(token_key(id, secret)),
    {
        let key = key_of(id, secret);
        match self.m2.get(&key) {
            Some(data) => Some(clone_sender(&data.tx)),
            None => None,
        }
    }

    /// Takes a firewall check's receiver out of the store. It is handed out
    /// once: afterwards the token keeps only its sender.
    pub fn take_firewall_rx(&mut self, id: RequestId, secret: RequestSecret) -> (r: Option<
        UnboundedReceiver<PeerAddr>,
    >)
        requires
            old(self).wf(),
        ensures
            final(self).wf(),
            r.is_some() == yields_receiver(old(self)@.receivers, token_key(id, secret)),
            final(self)@.receivers == after_take(old(self)@.receivers, token_key(id, secret)),
            r == (if old(self)@.pending.contains_key(token_key(id, secret)) {
                old(self)@.pending[token_key(id, secret)]
            } else {
                None
            }),
            final(self)@.pending == (if old(self)@.pending.contains_key(token_key(id, secret)) {
                old(self)@.pending.insert(token_key(id, secret), None)
            } else {
                old(self)@.pending
            }),
            final(self)@.senders == old(self)@.senders,
            final(self)@.requests == old(self)@.requests,
            final(self)@.next_id == old(self)@.next_id,
    {
        let key = key_of(id, secret);
        match self.m2.remove(&key) {
            Some(data) => {
                let QFirewallData { tx, rx } = data;
                self.m2.insert(key, QFirewallData { tx, rx: None });
                assert(self@.receivers =~= after_take(old(self)@.receivers, key));
                assert(self@.pending =~= old(self)@.pending.insert(key, None));
                assert(self@.senders =~= old(self)@.senders);
                rx
            },
            None => {
                assert(self@.receivers =~= old(self)@.receivers);
                assert(self@.pending =~= old(self)@.pending);
                assert(self@.senders =~= old(self)@.senders);
                None
            },
        }
    }
}

/// A token handed out by `create_request_data` finds its record with
/// `get_request_data` for as long as the store lives: no operation drops
/// or changes a registered record.
pub proof fn lemma_request_data_kept(
    before: Map<u64, QRequestData>,
    key: u64,
    data: QRequestData,
    later: Map<u64, QRequestData>,
)
    requires
        requests_kept(before.insert(key, data), later),
    ensures
        later.contains_key(key),
        later[key] == data,
{
    let registered = before.insert(key, data);
    assert(registered.contains_key(key) && registered[key] == data);
    assert(later.contains_key(key));
}

/// Keeping records is transitive: a chain of operations that each keep
/// every record keeps every record.
pub proof fn lemma_requests_kept_trans(
    a: Map<u64, QRequestData>,
    b: Map<u64, QRequestData>,
    c: Map<u64, QRequestData>,
)
    requires
        requests_kept(a, b),
        requests_kept(b, c),
    ensures
        requests_kept(a, c),
{
}

/// A firewall receiver is handed out at most once: once taken, taking it
/// again yields nothing and changes nothing.
pub proof fn lemma_receiver_taken_once(receivers: Map<u64, bool>, key: u64)
    ensures
        !yields_receiver(after_take(receivers, key), key),
        after_take(after_take(receivers, key), key) == after_take(receivers, key),
{
    let once = after_take(receivers, key);
    if receivers.contains_key(key) {
        assert(once.insert(key, false) =~= once);
    }
}

/// A taken receiver stays taken: registering another firewall check,
/// which only adds a token not yet in the store, does not bring it back.
pub proof fn lemma_taken_receiver_stays_taken(receivers: Map<u64, bool>, key: u64, fresh: u64)
    requires
        receivers.contains_key(key),
        !receivers[key],
        !receivers.contains_key(fresh),
    ensures
        !yields_receiver(receivers.insert(fresh, true), key),
{
}

} // verus!
