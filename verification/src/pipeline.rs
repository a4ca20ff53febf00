//! What the bot does with a message: whether it looks at it at all, what it
//! would hide, and whether it may swap the message for a censored copy.

use crate::censor::{
    censor, censored, censored_hits, is_censored, start, units_of, MatchMode,
};
use crate::censor_laws::hits_are_forbidden;
use crate::permissions::{privilege, privilege_of, Privilege};
use crate::routing::{channel_pair, pair_of, Channel};
use crate::segment::string_texts;
use crate::text::lowercase;
use crate::words::{names, rule_texts, rules_of, word_texts, Rule, Word};
use vstd::prelude::*;

verus! {

/// The most characters that the platform takes as the text of a message.
pub const CONTENT_LIMIT: usize = 2000;

/// `twilight_validate::message::content`, which the relay applies to a copy
/// before it posts it: a text is accepted if it has at most 2000 characters.
#[verifier::external_body]
fn content_fits(text: &str) -> (fits: bool)
    ensures
        fits == (text@.len() <= CONTENT_LIMIT),
{
    twilight_validate::message::content(text).is_ok()
}

/// What the bot reads of a message that was posted.
#[derive(Debug)]
pub struct Message {
    /// The message's identifier.
    pub id: u64,
    /// The channel or thread the message was posted in.
    pub channel_id: u64,
    /// The guild of that channel, if it belongs to one.
    pub guild_id: Option<u64>,
    /// The author is a bot or a webhook.
    pub author_is_bot: bool,
    /// The event tells who the author is as a member of the guild.
    pub has_member: bool,
    /// The event reports an edit of the message, not its creation.
    pub edited: bool,
    /// The text of the message.
    pub content: String,
}

/// The choices that are left to whoever runs the bot.
#[derive(Clone, Copy, Debug)]
pub struct Settings {
    /// How forbidden words are looked for.
    pub mode: MatchMode,
    /// Whether a message is censored again when it is edited.
    pub censor_edits: bool,
}

/// The guild whose rules apply to a message, if the bot censors it at all. It
/// never censors what a bot wrote, which keeps it from censoring its own
/// copies, nor a message outside a guild or without its author's membership,
/// and it censors an edited message only where that is asked for.
pub open spec fn scope_of(message: Message, settings: Settings) -> Option<u64> {
    if message.author_is_bot || !message.has_member || (message.edited && !settings.censor_edits) {
        None
    } else {
        message.guild_id
    }
}

/// The guild whose rules apply to a message, if the bot censors it at all.
pub fn screen(message: &Message, settings: Settings) -> (scope: Option<u64>)
    ensures
        scope == scope_of(*message, settings),
{
    if message.author_is_bot || !message.has_member || (message.edited && !settings.censor_edits) {
        None
    } else {
        message.guild_id
    }
}

/// All hidden words are one and the same word.
pub open spec fn one_word(hits: Seq<Seq<char>>) -> bool {
    hits.len() > 0 && forall|i: int| 0 <= i < hits.len() ==> #[trigger] hits[i] == hits[0]
}

/// The identifier of the first rule that has the text.
pub open spec fn first_rule_with(rules: Seq<Rule>, text: Seq<char>) -> Option<i32>
    decreases rules.len(),
{
    if rules.len() == 0 {
        None
    } else if rules[0].1 == text {
        Some(rules[0].0)
    } else {
        first_rule_with(rules.drop_first(), text)
    }
}

/// The rule that a moderator may lift from the censored copy: the rule of the
/// hidden word, if exactly one word was hidden, however often.
pub open spec fn control_of(hits: Seq<Seq<char>>, rules: Seq<Rule>) -> Option<i32> {
    if one_word(hits) {
        first_rule_with(rules, hits[0])
    } else {
        None
    }
}

fn is_one_word(hits: &Vec<String>) -> (one: bool)
    ensures
        one == one_word(string_texts(hits@)),
{
    if hits.len() == 0 {
        return false;
    }
    let mut i: usize = 1;
    while i < hits.len()
        invariant
            1 <= i <= hits.len(),
            forall|j: int|
                0 <= j < i ==> #[trigger] string_texts(hits@)[j] == string_texts(hits@)[0],
        decreases hits.len() - i,
    {
        if hits[i] != hits[0] {
            assert(string_texts(hits@)[i as int] != string_texts(hits@)[0]);
            return false;
        }
        i += 1;
    }
    true
}

fn rule_with(words: &Vec<Word>, text: &String) -> (id: Option<i32>)
    ensures
        id == first_rule_with(rules_of(words@), text@),
{
    let ghost rules = rules_of(words@);
    let mut i: usize = 0;
    assert(rules.skip(0) =~= rules);
    while i < words.len()
        invariant
            i <= words.len(),
            rules == rules_of(words@),
            first_rule_with(rules, text@) == first_rule_with(rules.skip(i as int), text@),
        decreases words.len() - i,
    {
        assert(rules.skip(i as int).drop_first() =~= rules.skip(i + 1));
        if words[i].word == *text {
            return Some(words[i].id);
        }
        i += 1;
    }
    None
}

/// What censoring found in a message.
#[derive(Debug)]
pub struct Finding {
    /// The censored text.
    pub text: String,
    /// The rule that a moderator may lift from the copy, if exactly one word
    /// was hidden.
    pub control: Option<i32>,
}

/// Censors the text of a message with the words in effect. `None` says that
/// there is nothing to hide, and so nothing to do.
pub fn evaluate(content: &str, words: &Vec<Word>, mode: MatchMode) -> (finding: Option<Finding>)
    ensures
        finding is Some == is_censored(content@, rule_texts(rules_of(words@)), mode),
        finding is Some ==> finding->0.text@ == censored(
            content@,
            rule_texts(rules_of(words@)),
            mode,
        ) && finding->0.control == control_of(
            censored_hits(content@, rule_texts(rules_of(words@)), mode),
            rules_of(words@),
        ),
{
    let texts = word_texts(words);
    let done = censor(content, &texts, mode);
    if !done.changed {
        return None;
    }
    let control = if is_one_word(&done.hits) {
        rule_with(words, &done.hits[0])
    } else {
        None
    };
    Some(Finding { text: done.text, control })
}

/// What the bot does about a message.
#[derive(Debug)]
pub enum Plan {
    /// The message is none that the bot censors.
    Ignore,
    /// The message holds nothing to hide.
    Clean,
    /// There is something to hide, and the bot may not even say so.
    Silent,
    /// There is something to hide, and the bot may only post a notice.
    Notify {
        /// The channel to post the notice in.
        channel: u64,
    },
    /// There is something to hide and the bot may swap the message, but the
    /// channel is unknown or cannot be routed. Nothing is deleted.
    Unroutable,
    /// There is something to hide and the bot may swap the message, but the
    /// censored copy would be longer than the platform takes. Nothing is
    /// deleted.
    TooLong,
    /// The message is deleted, and a censored copy is posted in the author's
    /// name.
    Swap {
        /// The channel or thread to delete the message from.
        delete_in: u64,
        /// The message to delete.
        message: u64,
        /// The channel whose webhook posts the copy.
        relay_in: u64,
        /// The thread to post the copy to, if the message stood in one.
        thread: Option<u64>,
        /// The censored text.
        text: String,
        /// The rule that a moderator may lift from the copy.
        control: Option<i32>,
    },
}

/// The route of a channel record, if there is a record and it can be routed.
pub open spec fn route_of(channel: Option<Channel>) -> Option<(u64, Option<u64>)> {
    match channel {
        Some(record) => match pair_of(record) {
            Ok(pair) => Some(pair),
            Err(_) => None,
        },
        None => None,
    }
}

/// Decides what to do about a message in which something to hide was found,
/// from the permissions the bot holds in the message's channel and the record
/// of that channel.
///
/// The privileges are looked at before anything is deleted, and so are the
/// route and the length of the copy: a message is only ever deleted when its
/// copy can be posted.
pub fn act_on(message: &Message, finding: Finding, held: u64, channel: Option<Channel>) -> (plan:
    Plan)
    ensures
        match privilege_of(held) {
            Privilege::Silent => plan is Silent,
            Privilege::NoticeOnly => plan == (Plan::Notify { channel: message.channel_id }),
            Privilege::Swap => match route_of(channel) {
                None => plan is Unroutable,
                Some(pair) => if finding.text@.len() > CONTENT_LIMIT {
                    plan is TooLong
                } else {
                    plan == (Plan::Swap {
                        delete_in: message.channel_id,
                        message: message.id,
                        relay_in: pair.0,
                        thread: pair.1,
                        text: finding.text,
                        control: finding.control,
                    })
                },
            },
        },
{
    match privilege(held) {
        Privilege::Silent => Plan::Silent,
        Privilege::NoticeOnly => Plan::Notify { channel: message.channel_id },
        Privilege::Swap => {
            let record = match channel {
                Some(record) => record,
                None => {
                    return Plan::Unroutable;
                },
            };
            match channel_pair(&record) {
                Ok(pair) => if content_fits(finding.text.as_str()) {
                    Plan::Swap {
                        delete_in: message.channel_id,
                        message: message.id,
                        relay_in: pair.0,
                        thread: pair.1,
                        text: finding.text,
                        control: finding.control,
                    }
                } else {
                    Plan::TooLong
                },
                Err(_) => Plan::Unroutable,
            }
        },
    }
}

/// Decides what to do about a message, from all that is known of it: the
/// words in effect in its guild, the permissions the bot holds in its channel
/// and the record of that channel.
pub fn plan(
    message: &Message,
    words: &Vec<Word>,
    settings: Settings,
    held: u64,
    channel: Option<Channel>,
) -> (plan: Plan)
    ensures
        plan is Ignore <==> scope_of(*message, settings) is None,
        plan is Clean <==> scope_of(*message, settings) is Some && !is_censored(
            message.content@,
            rule_texts(rules_of(words@)),
            settings.mode,
        ),
        scope_of(*message, settings) is Some && is_censored(
            message.content@,
            rule_texts(rules_of(words@)),
            settings.mode,
        ) ==> match privilege_of(held) {
            Privilege::Silent => plan is Silent,
            Privilege::NoticeOnly => plan == (Plan::Notify { channel: message.channel_id }),
            Privilege::Swap => match route_of(channel) {
                None => plan is Unroutable,
                Some(pair) => if censored(
                    message.content@,
                    rule_texts(rules_of(words@)),
                    settings.mode,
                ).len() > CONTENT_LIMIT {
                    plan is TooLong
                } else {
                    plan is Swap && plan->delete_in == message.channel_id && plan->message
                        == message.id && plan->relay_in == pair.0 && plan->thread == pair.1
                        && plan->text@ == censored(
                        message.content@,
                        rule_texts(rules_of(words@)),
                        settings.mode,
                    ) && plan->control == control_of(
                        censored_hits(
                            message.content@,
                            rule_texts(rules_of(words@)),
                            settings.mode,
                        ),
                        rules_of(words@),
                    )
                },
            },
        },
{
    if screen(message, settings).is_none() {
        return Plan::Ignore;
    }
    match evaluate(message.content.as_str(), words, settings.mode) {
        Some(finding) => act_on(message, finding, held, channel),
        None => Plan::Clean,
    }
}

/// The notice that the bot posts where it may not swap a message.
pub fn notice() -> (text: &'static str)
    ensures
        text@ == "there's a word to put in spoilers here but i need `manage messages` and `manage webhooks` permissions first"@,
{
    "there's a word to put in spoilers here but i need `manage messages` and `manage webhooks` permissions first"
}

/// The label of the control on a censored copy.
pub fn control_label() -> (text: &'static str)
    ensures
        text@ == "allow this word (moderator only)"@,
{
    "allow this word (moderator only)"
}

/// How far the work on one message has come.
#[derive(Clone, Copy, Debug, PartialEq, Eq, Structural)]
pub enum Stage {
    /// The message has arrived.
    Received,
    /// Something to hide was found in it.
    Evaluated,
    /// The bot may swap it.
    PrivilegeChecked,
    /// The author's message is deleted.
    Deleted,
    /// The copy is posted.
    Relayed,
    /// Nothing more is done about the message.
    Done,
}

/// What has just been learned or done about a message.
#[derive(Clone, Copy, Debug, PartialEq, Eq, Structural)]
pub enum Event {
    /// The rules of the guild could not be read.
    Unavailable,
    /// The text was censored, and something was hidden or not.
    Evaluated { matched: bool },
    /// The bot's privileges in the channel are known.
    Privileges { level: Privilege },
    /// Deleting the author's message succeeded or failed.
    Deleted { ok: bool },
    /// Posting the copy succeeded or failed.
    Relayed { ok: bool },
}

/// What to do next about a message.
#[derive(Clone, Copy, Debug, PartialEq, Eq, Structural)]
pub enum Command {
    /// Look up the bot's privileges in the channel.
    CheckPrivileges,
    /// Post the notice about missing permissions.
    Notify,
    /// Delete the author's message.
    Delete,
    /// Post the censored copy.
    Relay,
    /// Report an error; the author's message is still there.
    Report,
    /// Report, loudly, that the author's message is gone and no copy stands
    /// in its place.
    Escalate,
    /// Nothing.
    Finish,
}

/// The stage after an event, and what to do next.
pub open spec fn next(stage: Stage, event: Event) -> (Stage, Command) {
    match (stage, event) {
        (Stage::Received, Event::Unavailable) => (Stage::Done, Command::Report),
        (Stage::Received, Event::Evaluated { matched: true }) => (
            Stage::Evaluated,
            Command::CheckPrivileges,
        ),
        (Stage::Evaluated, Event::Privileges { level: Privilege::Swap }) => (
            Stage::PrivilegeChecked,
            Command::Delete,
        ),
        (Stage::Evaluated, Event::Privileges { level: Privilege::NoticeOnly }) => (
            Stage::Done,
            Command::Notify,
        ),
        (Stage::PrivilegeChecked, Event::Deleted { ok: true }) => (Stage::Deleted, Command::Relay),
        (Stage::PrivilegeChecked, Event::Deleted { ok: false }) => (Stage::Done, Command::Report),
        (Stage::Deleted, Event::Relayed { ok: true }) => (Stage::Relayed, Command::Finish),
        (Stage::Deleted, _) => (Stage::Done, Command::Escalate),
        _ => (Stage::Done, Command::Finish),
    }
}

/// Takes the work on a message one step further: from the stage it is in and
/// what has just happened, the stage it is in now and what to do next.
pub fn advance(stage: Stage, event: Event) -> (step: (Stage, Command))
    ensures
        step == next(stage, event),
{
    match (stage, event) {
        (Stage::Received, Event::Unavailable) => (Stage::Done, Command::Report),
        (Stage::Received, Event::Evaluated { matched: true }) => (
            Stage::Evaluated,
            Command::CheckPrivileges,
        ),
        (Stage::Evaluated, Event::Privileges { level: Privilege::Swap }) => (
            Stage::PrivilegeChecked,
            Command::Delete,
        ),
        (Stage::Evaluated, Event::Privileges { level: Privilege::NoticeOnly }) => (
            Stage::Done,
            Command::Notify,
        ),
        (Stage::PrivilegeChecked, Event::Deleted { ok: true }) => (Stage::Deleted, Command::Relay),
        (Stage::PrivilegeChecked, Event::Deleted { ok: false }) => (Stage::Done, Command::Report),
        (Stage::Deleted, Event::Relayed { ok: true }) => (Stage::Relayed, Command::Finish),
        (Stage::Deleted, _) => (Stage::Done, Command::Escalate),
        _ => (Stage::Done, Command::Finish),
    }
}

/// How many steps a stage is from the start.
pub open spec fn rank(stage: Stage) -> nat {
    match stage {
        Stage::Received => 0,
        Stage::Evaluated => 1,
        Stage::PrivilegeChecked => 2,
        Stage::Deleted => 3,
        Stage::Relayed => 4,
        Stage::Done => 5,
    }
}

/// Once nothing more is to be done about a message, nothing is done, whatever
/// happens.
pub proof fn done_is_final(event: Event)
    ensures
        next(Stage::Done, event) == (Stage::Done, Command::Finish),
{
}

/// Every step takes the work further, until it is done.
pub proof fn every_step_moves_on(stage: Stage, event: Event)
    ensures
        stage != Stage::Done ==> rank(next(stage, event).0) > rank(stage),
{
}

/// The author's message is deleted only after the bot's privileges were found
/// to suffice, and the copy is posted only after the message was deleted.
pub proof fn delete_then_relay(stage: Stage, event: Event)
    ensures
        next(stage, event).1 == Command::Delete <==> stage == Stage::Evaluated && event == (
        Event::Privileges { level: Privilege::Swap }),
        next(stage, event).1 == Command::Relay <==> stage == Stage::PrivilegeChecked && event == (
        Event::Deleted { ok: true }),
{
}

/// A message with nothing to hide causes no action, and neither does one in
/// a channel where the bot may do nothing.
pub proof fn nothing_to_do_means_nothing_done(stage: Stage)
    ensures
        next(Stage::Received, Event::Evaluated { matched: false }) == (
            Stage::Done,
            Command::Finish,
        ),
        next(Stage::Evaluated, Event::Privileges { level: Privilege::Silent }) == (
            Stage::Done,
            Command::Finish,
        ),
{
}

/// An error is reported, with the author's message still in place, exactly
/// when the rules could not be read or the message could not be deleted.
pub proof fn harmless_errors_are_reported(stage: Stage, event: Event)
    ensures
        next(stage, event).1 == Command::Report <==> (stage == Stage::Received && event
            == Event::Unavailable) || (stage == Stage::PrivilegeChecked && event == (
        Event::Deleted { ok: false })),
{
}

/// The loss of a message is escalated exactly when the message was deleted
/// and its copy was not posted.
pub proof fn loss_is_escalated(stage: Stage, event: Event)
    ensures
        next(stage, event).1 == Command::Escalate <==> stage == Stage::Deleted && event != (
        Event::Relayed { ok: true }),
{
}

/// A text that some rule has is the text of a first rule.
pub proof fn named_text_has_a_rule(rules: Seq<Rule>, text: Seq<char>)
    ensures
        first_rule_with(rules, text) is Some == names(rules, text),
    decreases rules.len(),
{
    if rules.len() > 0 {
        let rest = rules.drop_first();
        named_text_has_a_rule(rest, text);
        if rules[0].1 != text {
            if names(rules, text) {
                let i = choose|i: int| 0 <= i < rules.len() && (#[trigger] rules[i]).1 == text;
                assert(rest[i - 1].1 == text);
            }
            if names(rest, text) {
                let i = choose|i: int| 0 <= i < rest.len() && (#[trigger] rest[i]).1 == text;
                assert(rules[i + 1].1 == text);
            }
        }
    }
}

/// Where exactly one word was hidden, the censored copy carries a control,
/// and the control names a rule of that word.
pub proof fn one_hidden_word_has_a_control(
    content: Seq<char>,
    rules: Seq<Rule>,
    mode: MatchMode,
)
    ensures
        one_word(censored_hits(content, rule_texts(rules), mode)) ==> control_of(
            censored_hits(content, rule_texts(rules), mode),
            rules,
        ) is Some,
{
    let hits = censored_hits(content, rule_texts(rules), mode);
    if one_word(hits) {
        let units = units_of(lowercase(content), rule_texts(rules), mode);
        hits_are_forbidden(units, start(), rule_texts(rules), 0);
        let at = choose|at: int|
            0 <= at < rule_texts(rules).len() && rule_texts(rules)[at] == hits[0];
        assert(rules[at].1 == hits[0]);
        named_text_has_a_rule(rules, hits[0]);
    }
}

} // verus!
