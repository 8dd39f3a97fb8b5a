use vstd::prelude::*;

verus! {

/// UDP port of the network time service.
pub const NTP_PORT: u16 = 123;

/// The seed used when the time query fails: an obviously wrong time that
/// keeps the clock running.
pub const FALLBACK_SEED: i64 = 100;

/// What start-up does next while it sets the clock from the network.
#[derive(Clone, Copy, Debug, PartialEq, Eq)]
pub enum SyncStep {
    /// No time can be had: start-up stops and the display never runs.
    Abort,
    /// Ask the time server at this IPv4 address and port.
    Query { addr: [u8; 4], port: u16 },
    /// Load the counter with this time and start the display.
    Seed(i64),
}

/// The step after the server's name was looked up (`None`: the lookup failed).
pub open spec fn dns_step(answer: Option<Seq<[u8; 4]>>) -> SyncStep {
    match answer {
        Some(addrs) => if addrs.len() > 0 {
            SyncStep::Query { addr: addrs[0], port: NTP_PORT }
        } else {
            SyncStep::Abort
        },
        None => SyncStep::Abort,
    }
}

/// The step after the time query (`Some`: the offset it reported; `None`: it
/// failed).
pub open spec fn query_step(offset: Option<i64>) -> SyncStep {
    match offset {
        Some(o) => SyncStep::Seed(o),
        None => SyncStep::Seed(FALLBACK_SEED),
    }
}

/// Decides what follows the name lookup of the time server: a lookup that
/// failed or found no address ends start-up; otherwise the first address is
/// queried.
pub fn after_dns(answer: Option<&Vec<[u8; 4]>>) -> (step: SyncStep)
    ensures
        step == dns_step(match answer { Some(a) => Some(a@), None => None }),
{
    match answer {
        Some(addrs) => {
            if addrs.len() == 0 {
                SyncStep::Abort
            } else {
                SyncStep::Query { addr: addrs[0], port: NTP_PORT }
            }
        },
        None => SyncStep::Abort,
    }
}

/// Decides the seed after the time query: the reported offset, or the
/// fallback seed when the query failed.
pub fn after_query(offset: Option<i64>) -> (step: SyncStep)
    ensures
        step == query_step(offset),
{
    match offset {
        Some(o) => SyncStep::Seed(o),
        None => SyncStep::Seed(FALLBACK_SEED),
    }
}

/// A lookup that found no address stops start-up: it never leads to a query or
/// to a seed, so the display never starts.
pub proof fn lemma_empty_lookup_aborts(addrs: Seq<[u8; 4]>)
    requires
        addrs.len() == 0,
    ensures
        dns_step(Some(addrs)) == SyncStep::Abort,
        !(dns_step(Some(addrs)) is Seed),
        !(dns_step(Some(addrs)) is Query),
{
}

/// A failed time query still seeds the clock, with the fallback seed, which the
/// counter can hold, so the display goes on.
pub proof fn lemma_failed_query_seeds_fallback()
    ensures
        query_step(None) == SyncStep::Seed(FALLBACK_SEED),
        FALLBACK_SEED >= 0,
        crate::counter::joined(
            crate::counter::high_half(FALLBACK_SEED as u64),
            crate::counter::low_half(FALLBACK_SEED as u64),
        ) == FALLBACK_SEED,
{
}

} // verus!
