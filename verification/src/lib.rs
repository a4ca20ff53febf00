//! Message censorship for a chat moderation bot.
//!
//! The library decides; it does not talk to the chat platform or to the rule
//! store. Its caller reads what is needed, asks the library what to do, and
//! does it.
//!
//! - [`words`]: the words that are forbidden in a guild, and [`store`]: how
//!   the rule store names guilds and categories.
//! - [`censor`]: hiding forbidden words in a text, and [`censor_laws`]: what
//!   holds of that.
//! - [`pipeline`]: what to do about a message, step by step.
//! - [`relay`]: the webhooks through which censored copies are posted.
//! - [`commands`]: the bot's commands, and [`control`]: the control on a
//!   censored copy.
//! - [`permissions`], [`routing`], [`text`], [`segment`]: what the others
//!   build on.

pub mod text;
pub mod segment;
pub mod censor;
pub mod censor_laws;
pub mod words;
pub mod store;
pub mod permissions;
pub mod routing;
pub mod pipeline;
pub mod relay;
pub mod control;
pub mod commands;
