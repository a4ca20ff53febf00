//! Where a copy of a message is posted: threads have no webhooks of their
//! own, so a message in a thread goes through the thread's parent channel.

use vstd::prelude::*;

verus! {

/// The kind of a channel.
#[derive(Clone, Copy, Debug, PartialEq, Eq, Structural)]
pub enum ChannelKind {
    GuildText,
    Private,
    GuildVoice,
    Group,
    GuildCategory,
    GuildNews,
    GuildStore,
    GuildNewsThread,
    GuildPublicThread,
    GuildPrivateThread,
    GuildStageVoice,
    GuildDirectory,
    GuildForum,
}

impl ChannelKind {
    /// A thread is a news thread, a public thread or a private thread.
    pub open spec fn thread(self) -> bool {
        self is GuildNewsThread || self is GuildPublicThread || self is GuildPrivateThread
    }

    /// Whether the kind is that of a thread.
    pub fn is_thread(self) -> (thread: bool)
        ensures
            thread == self.thread(),
    {
        match self {
            ChannelKind::GuildNewsThread
            | ChannelKind::GuildPublicThread
            | ChannelKind::GuildPrivateThread => true,
            _ => false,
        }
    }
}

/// What routing reads of a channel.
#[derive(Clone, Copy, Debug)]
pub struct Channel {
    /// The channel's identifier.
    pub id: u64,
    /// The channel's kind.
    pub kind: ChannelKind,
    /// The channel that a thread belongs to.
    pub parent_id: Option<u64>,
}

/// Why a channel cannot be routed.
#[derive(Clone, Copy, Debug, PartialEq, Eq, Structural)]
pub enum RoutingError {
    /// The channel is a thread, and its record names no parent.
    ThreadWithoutParent,
}

/// The channel that owns the webhook, and the thread to post in, if any.
pub open spec fn pair_of(channel: Channel) -> Result<(u64, Option<u64>), RoutingError> {
    if !channel.kind.thread() {
        Ok((channel.id, None))
    } else {
        match channel.parent_id {
            Some(parent) => Ok((parent, Some(channel.id))),
            None => Err(RoutingError::ThreadWithoutParent),
        }
    }
}

/// The channel to post in and the thread to post to: for a thread its parent
/// and the thread itself, for any other channel the channel and no thread.
/// Only a thread whose record names no parent cannot be routed.
pub fn channel_pair(channel: &Channel) -> (pair: Result<(u64, Option<u64>), RoutingError>)
    ensures
        pair == pair_of(*channel),
        !channel.kind.thread() ==> pair == Ok::<(u64, Option<u64>), RoutingError>(
            (channel.id, None),
        ),
        pair is Err <==> channel.kind.thread() && channel.parent_id is None,
{
    if channel.kind.is_thread() {
        match channel.parent_id {
            Some(parent) => Ok((parent, Some(channel.id))),
            None => Err(RoutingError::ThreadWithoutParent),
        }
    } else {
        Ok((channel.id, None))
    }
}

/// A thread with a parent is routed through the parent, and any channel that
/// is no thread through itself, without fail.
pub proof fn routing_is_total_off_threads(channel: Channel)
    ensures
        !channel.kind.thread() ==> pair_of(channel) == Ok::<(u64, Option<u64>), RoutingError>(
            (channel.id, None),
        ),
        channel.kind.thread() && channel.parent_id is Some ==> pair_of(channel) == Ok::<
            (u64, Option<u64>),
            RoutingError,
        >((channel.parent_id->0, Some(channel.id))),
{
}

} // verus!
