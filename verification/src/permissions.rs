//! The bot's permissions in a channel, as the bits the platform assigns them.

use twilight_model::guild::Permissions as PlatformPermissions;
use vstd::prelude::*;

verus! {

/// The bit of the permission to manage a guild.
pub const MANAGE_GUILD: u64 = 0x20;

/// The bit of the permission to send messages.
pub const SEND_MESSAGES: u64 = 0x800;

/// The bit of the permission to delete other members' messages.
pub const MANAGE_MESSAGES: u64 = 0x2000;

/// The bit of the permission to create and use webhooks.
pub const MANAGE_WEBHOOKS: u64 = 0x2000_0000;

/// `Permissions::MANAGE_GUILD` of twilight-model, as bits: bit 5.
#[verifier::external_body]
fn manage_guild_bits() -> (bits: u64)
    ensures
        bits == MANAGE_GUILD,
{
    PlatformPermissions::MANAGE_GUILD.bits()
}

/// `Permissions::SEND_MESSAGES` of twilight-model, as bits: bit 11.
#[verifier::external_body]
fn send_messages_bits() -> (bits: u64)
    ensures
        bits == SEND_MESSAGES,
{
    PlatformPermissions::SEND_MESSAGES.bits()
}

/// `Permissions::MANAGE_MESSAGES` of twilight-model, as bits: bit 13.
#[verifier::external_body]
fn manage_messages_bits() -> (bits: u64)
    ensures
        bits == MANAGE_MESSAGES,
{
    PlatformPermissions::MANAGE_MESSAGES.bits()
}

/// `Permissions::MANAGE_WEBHOOKS` of twilight-model, as bits: bit 29.
#[verifier::external_body]
fn manage_webhooks_bits() -> (bits: u64)
    ensures
        bits == MANAGE_WEBHOOKS,
{
    PlatformPermissions::MANAGE_WEBHOOKS.bits()
}

/// Every bit of `required` is set in `held`.
pub open spec fn holds(held: u64, required: u64) -> bool {
    held & required == required
}

/// Whether a set of permissions holds all of the required ones.
pub fn contains(held: u64, required: u64) -> (all: bool)
    ensures
        all == holds(held, required),
{
    held & required == required
}

/// What the bot may do about a forbidden word in a channel.
#[derive(Clone, Copy, Debug, PartialEq, Eq, Structural)]
pub enum Privilege {
    /// It may delete the message and post a copy in the author's name.
    Swap,
    /// It may do neither, but it may post a notice.
    NoticeOnly,
    /// It may not even post a notice.
    Silent,
}

/// The privilege that a set of permissions gives.
pub open spec fn privilege_of(held: u64) -> Privilege {
    if holds(held, MANAGE_MESSAGES) && holds(held, MANAGE_WEBHOOKS) {
        Privilege::Swap
    } else if holds(held, SEND_MESSAGES) {
        Privilege::NoticeOnly
    } else {
        Privilege::Silent
    }
}

/// What the bot may do with the permissions it holds in a channel: swap the
/// message if it may both manage messages and manage webhooks, else post a
/// notice if it may send messages, else nothing.
pub fn privilege(held: u64) -> (level: Privilege)
    ensures
        level == privilege_of(held),
{
    let both = manage_messages_bits() | manage_webhooks_bits();
    assert(holds(held, both) == (holds(held, MANAGE_MESSAGES) && holds(held, MANAGE_WEBHOOKS)))
        by (bit_vector)
        requires
            both == 0x2000u64 | 0x2000_0000u64,
    ;
    if contains(held, both) {
        Privilege::Swap
    } else if contains(held, send_messages_bits()) {
        Privilege::NoticeOnly
    } else {
        Privilege::Silent
    }
}

/// Whether a member with these permissions may change a guild's rules.
pub fn may_manage_guild(held: u64) -> (may: bool)
    ensures
        may == holds(held, MANAGE_GUILD),
{
    contains(held, manage_guild_bits())
}

/// Whether the bot may post through a webhook with these permissions.
pub fn may_manage_webhooks(held: u64) -> (may: bool)
    ensures
        may == holds(held, MANAGE_WEBHOOKS),
{
    contains(held, manage_webhooks_bits())
}

} // verus!
