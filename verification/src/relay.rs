//! The relay's endpoints: at most one per channel, created by one caller at a
//! time, and dropped one by one when the platform reports a change.
//!
//! The cache decides; creating an endpoint and sending through it is left to
//! the caller, who reports back what came of it.

use std::collections::HashMap;
use vstd::prelude::*;

verus! {

broadcast use vstd::std_specs::hash::group_hash_axioms;

/// A webhook of a channel, through which a message can be posted in another
/// member's name.
#[derive(Debug)]
pub struct Endpoint {
    /// The webhook's identifier.
    pub id: u64,
    /// The token that authorises posting through it.
    pub token: String,
}

impl Endpoint {
    /// A copy of the endpoint.
    pub fn copy(&self) -> (copy: Endpoint)
        ensures
            copy == *self,
    {
        Endpoint { id: self.id, token: self.token.clone() }
    }
}

/// What the cache holds for a channel.
#[derive(Debug)]
pub enum Slot {
    /// Somebody is creating the channel's endpoint.
    Pending,
    /// The channel's endpoint.
    Ready(Endpoint),
}

/// What a caller who needs a channel's endpoint is told.
#[derive(Debug)]
pub enum Lookup {
    /// The endpoint to use.
    Ready(Endpoint),
    /// There is none: the caller creates one and hands it in with `fill`.
    Create,
    /// Somebody else is creating it: the caller waits and asks again.
    Wait,
}

/// The endpoints known, by channel.
pub struct RelayCache {
    slots: HashMap<u64, Slot>,
}

impl View for RelayCache {
    type V = Map<u64, Slot>;

    closed spec fn view(&self) -> Map<u64, Slot> {
        self.slots@
    }
}

impl RelayCache {
    /// A cache that knows no endpoint.
    pub fn new() -> (cache: RelayCache)
        ensures
            cache@ == Map::<u64, Slot>::empty(),
    {
        RelayCache { slots: HashMap::new() }
    }

    /// The endpoint of a channel, or who is to create it. The first caller to
    /// ask for a channel without an endpoint is told to create it, and the
    /// channel is marked; every other caller is told to wait until the first
    /// has handed the endpoint in or given up.
    pub fn lookup(&mut self, channel: u64) -> (found: Lookup)
        ensures
            match found {
                Lookup::Ready(endpoint) => old(self)@.contains_key(channel) && old(self)@[channel]
                    == Slot::Ready(endpoint) && final(self)@ == old(self)@,
                Lookup::Wait => old(self)@.contains_key(channel) && old(self)@[channel]
                    is Pending && final(self)@ == old(self)@,
                Lookup::Create => !old(self)@.contains_key(channel) && final(self)@ == old(
                    self,
                )@.insert(channel, Slot::Pending),
            },
    {
        let found = match self.slots.get(&channel) {
            Some(Slot::Ready(endpoint)) => Lookup::Ready(endpoint.copy()),
            Some(Slot::Pending) => Lookup::Wait,
            None => Lookup::Create,
        };
        if let Lookup::Create = found {
            self.slots.insert(channel, Slot::Pending);
        }
        found
    }

    /// Hands in an endpoint that was created for a channel, and returns the
    /// endpoint to use. If the channel has an endpoint by now, that one stays
    /// and is returned: of two callers that created one, the first wins.
    pub fn fill(&mut self, channel: u64, endpoint: Endpoint) -> (winner: Endpoint)
        ensures
            old(self)@.contains_key(channel) && old(self)@[channel] is Ready ==> final(self)@
                == old(self)@ && Slot::Ready(winner) == old(self)@[channel],
            !(old(self)@.contains_key(channel) && old(self)@[channel] is Ready) ==> final(self)@
                == old(self)@.insert(channel, Slot::Ready(endpoint)) && winner == endpoint,
    {
        let held = match self.slots.get(&channel) {
            Some(Slot::Ready(first)) => Some(first.copy()),
            _ => None,
        };
        match held {
            Some(first) => first,
            None => {
                let winner = endpoint.copy();
                self.slots.insert(channel, Slot::Ready(endpoint));
                winner
            },
        }
    }

    /// Takes the mark from a channel whose endpoint could not be created, so
    /// that the next caller tries again. An endpoint that the channel has is
    /// kept.
    pub fn give_up(&mut self, channel: u64)
        ensures
            final(self)@ == if old(self)@.contains_key(channel) && old(self)@[channel] is Pending {
                old(self)@.remove(channel)
            } else {
                old(self)@
            },
    {
        let pending = match self.slots.get(&channel) {
            Some(Slot::Pending) => true,
            _ => false,
        };
        if pending {
            self.slots.remove(&channel);
        }
    }

    /// Whether the cache holds an endpoint for the channel. Only then does a
    /// change that the platform reports concern the cache.
    pub fn knows(&self, channel: u64) -> (known: bool)
        ensures
            known == (self@.contains_key(channel) && self@[channel] is Ready),
    {
        match self.slots.get(&channel) {
            Some(Slot::Ready(_)) => true,
            _ => false,
        }
    }

    /// Forgets what is known of one channel, and of no other.
    pub fn invalidate(&mut self, channel: u64)
        ensures
            final(self)@ == old(self)@.remove(channel),
    {
        self.slots.remove(&channel);
    }

    /// Brings a channel's endpoint up to date after the platform has reported
    /// a change of the channel's webhooks: the endpoint that the platform now
    /// has for the channel takes the place of the known one, or the known one
    /// is forgotten if the platform has none. A channel without a known
    /// endpoint is left as it is.
    pub fn revalidate(&mut self, channel: u64, upstream: Option<Endpoint>)
        ensures
            final(self)@ == if old(self)@.contains_key(channel) && old(self)@[channel] is Ready {
                match upstream {
                    Some(endpoint) => old(self)@.insert(channel, Slot::Ready(endpoint)),
                    None => old(self)@.remove(channel),
                }
            } else {
                old(self)@
            },
    {
        let known = match self.slots.get(&channel) {
            Some(Slot::Ready(_)) => true,
            _ => false,
        };
        if known {
            match upstream {
                Some(endpoint) => {
                    self.slots.insert(channel, Slot::Ready(endpoint));
                },
                None => {
                    self.slots.remove(&channel);
                },
            }
        }
    }
}

/// How often a caller asks again for an endpoint that somebody else is
/// creating.
pub const POLL_LIMIT: u32 = 100;

/// What a caller does with the answer to a lookup.
#[derive(Debug)]
pub enum Step {
    /// Send through the endpoint.
    Use(Endpoint),
    /// Create an endpoint, and hand it in or give up.
    Create,
    /// Wait a moment and look up again.
    Poll,
    /// Stop waiting and report a failure. The mark of whoever is creating
    /// the endpoint stays: only the creator takes it away, so that no second
    /// endpoint is created beside the first.
    TimedOut,
}

/// Decides what a caller does with the answer to a lookup, given how often
/// it has asked in vain so far.
pub fn after_lookup(polls: u32, found: Lookup) -> (step: Step)
    ensures
        match found {
            Lookup::Ready(endpoint) => step == Step::Use(endpoint),
            Lookup::Create => step is Create,
            Lookup::Wait => if polls < POLL_LIMIT {
                step is Poll
            } else {
                step is TimedOut
            },
        },
{
    match found {
        Lookup::Ready(endpoint) => Step::Use(endpoint),
        Lookup::Create => Step::Create,
        Lookup::Wait => if polls < POLL_LIMIT {
            Step::Poll
        } else {
            Step::TimedOut
        },
    }
}

/// Where the endpoint of an attempt to send came from.
#[derive(Clone, Copy, Debug, PartialEq, Eq, Structural)]
pub enum Attempt {
    /// From the cache: it may be stale.
    Cached,
    /// It was created for this attempt.
    Fresh,
}

/// What follows an attempt to send.
#[derive(Clone, Copy, Debug, PartialEq, Eq, Structural)]
pub enum Follow {
    /// The message is posted.
    Delivered,
    /// The cached endpoint failed: forget it, create one and send once more.
    RetryFresh,
    /// The error goes to the caller.
    Failed,
}

/// What follows an attempt to send.
pub open spec fn follow_of(attempt: Attempt, ok: bool) -> Follow {
    if ok {
        Follow::Delivered
    } else if attempt == Attempt::Cached {
        Follow::RetryFresh
    } else {
        Follow::Failed
    }
}

/// What follows an attempt to send: a failure through a cached endpoint is
/// answered by one more attempt through a new endpoint, and a failure through
/// a new endpoint is final.
pub fn after_send(attempt: Attempt, ok: bool) -> (follow: Follow)
    ensures
        follow == follow_of(attempt, ok),
{
    if ok {
        Follow::Delivered
    } else {
        match attempt {
            Attempt::Cached => Follow::RetryFresh,
            Attempt::Fresh => Follow::Failed,
        }
    }
}

/// Forgetting one channel leaves every other channel as it was.
pub proof fn invalidation_is_pointwise(slots: Map<u64, Slot>, channel: u64, other: u64)
    requires
        other != channel,
    ensures
        slots.remove(channel).contains_key(other) == slots.contains_key(other),
        slots.contains_key(other) ==> slots.remove(channel)[other] == slots[other],
        !slots.remove(channel).contains_key(channel),
{
}

/// A message is sent at most twice: the attempt that follows a failed one
/// uses a new endpoint, and after that nothing follows but the outcome.
pub proof fn one_retry_at_most(first_ok: bool, second_ok: bool)
    ensures
        follow_of(Attempt::Cached, first_ok) == Follow::RetryFresh ==> follow_of(
            Attempt::Fresh,
            second_ok,
        ) != Follow::RetryFresh,
{
}

} // verus!
