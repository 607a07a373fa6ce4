//! The service's own public IPv4 address, cached for a fixed time, and the
//! order in which a refresh tries its sources.

use vstd::prelude::*;

verus! {

/// How long a resolved address stays fresh, in seconds.
pub const ADDR_CACHE_SECS: u64 = 60 * 30;

/// The cached public address (`Fresh`), with the time (seconds since the Unix epoch)
/// at which it goes stale.
#[derive(Debug, Clone, Copy, PartialEq, Eq)]
pub enum PublicAddrCache {
    Unset,
    Fresh { value: u32, expires: u64 },
}

/// The time `ADDR_CACHE_SECS` after `now`, held at the largest `u64`.
pub open spec fn expiry_after(now: u64) -> u64 {
    if now + ADDR_CACHE_SECS <= u64::MAX {
        (now + ADDR_CACHE_SECS) as u64
    } else {
        u64::MAX
    }
}

impl PublicAddrCache {
    pub fn new() -> (r: Self)
        ensures
            r == PublicAddrCache::Unset,
    {
        PublicAddrCache::Unset
    }

    /// The cached address, if there is one and it is still fresh at `now`.
    pub fn cached(&self, now: u64) -> (r: Option<u32>)
        ensures
            r == (match *self {
                PublicAddrCache::Fresh { value, expires } => if now < expires {
                    Some(value)
                } else {
                    None
                },
                PublicAddrCache::Unset => None,
            }),
    {
        match *self {
            PublicAddrCache::Fresh { value, expires } => if now < expires {
                Some(value)
            } else {
                None
            },
            PublicAddrCache::Unset => None,
        }
    }

    /// Ends a refresh begun at `now`: a resolved address is cached for
    /// `ADDR_CACHE_SECS` and returned; when none was found the cache is left
    /// as it was and nothing is returned.
    pub fn finish_refresh(&mut self, resolved: Option<u32>, now: u64) -> (r: Option<u32>)
        ensures
            r == resolved,
            match resolved {
                Some(value) => *final(self) == PublicAddrCache::Fresh {
                    value,
                    expires: expiry_after(now),
                },
                None => *final(self) == *old(self),
            },
    {
        if let Some(value) = resolved {
            *self = PublicAddrCache::Fresh { value, expires: now.saturating_add(ADDR_CACHE_SECS) };
        }
        resolved
    }
}

/// What a refresh does next.
#[derive(Debug, Clone, Copy, PartialEq, Eq)]
pub enum ResolveStep {
    /// Ask the external lookup service with this index.
    Query(usize),
    /// Ask for the address of a local non-loopback interface.
    QueryLocal,
    /// The refresh is over, with this address or none.
    Done(Option<u32>),
}

/// The first step of a refresh over `endpoint_count` external services.
pub fn resolve_start(endpoint_count: usize) -> (r: ResolveStep)
    ensures
        r == (if endpoint_count > 0 {
            ResolveStep::Query(0)
        } else {
            ResolveStep::QueryLocal
        }),
{
    if endpoint_count > 0 {
        ResolveStep::Query(0)
    } else {
        ResolveStep::QueryLocal
    }
}

/// The step after external service `index` answered: its address ends the
/// refresh; on failure the next service is asked, and after the last one
/// the local interface.
pub fn resolve_after_endpoint(index: usize, endpoint_count: usize, outcome: Option<u32>) -> (r:
    ResolveStep)
    requires
        index < endpoint_count,
    ensures
        r == (match outcome {
            Some(a) => ResolveStep::Done(Some(a)),
            None => if index + 1 < endpoint_count {
                ResolveStep::Query((index + 1) as usize)
            } else {
                ResolveStep::QueryLocal
            },
        }),
{
    match outcome {
        Some(a) => ResolveStep::Done(Some(a)),
        None => if index + 1 < endpoint_count {
            ResolveStep::Query(index + 1)
        } else {
            ResolveStep::QueryLocal
        },
    }
}

} // verus!
