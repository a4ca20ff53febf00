//! The bot's commands and the control on a censored copy: who may use them,
//! and what they change.

use crate::control::{parse_rule_id, rule_id_of};
use crate::permissions::{
    holds, may_manage_guild, may_manage_webhooks, MANAGE_GUILD, MANAGE_WEBHOOKS,
};
use crate::routing::{channel_pair, pair_of, Channel};
use crate::text::{lowercase, same_text, strip_markup, without_pipes};
use crate::words::{
    category_names, has_default, has_word, names, rules_of, Category, DefaultWord, Rule, Word,
};
use vstd::prelude::*;

verus! {

/// The commands the bot knows.
#[derive(Clone, Copy, Debug, PartialEq, Eq, Structural)]
pub enum CommandKind {
    /// Post a message behind a trigger warning.
    Tw,
    /// Post a message with a tone tag.
    Tag,
    /// Add or remove a word of the guild.
    CustomWord,
    /// Add a word of the guild.
    AddCustomWord,
    /// Add a default word.
    AddDefaultWord,
}

/// The command of a name.
pub open spec fn kind_of(name: Seq<char>) -> Option<CommandKind> {
    if name == "tw"@ {
        Some(CommandKind::Tw)
    } else if name == "tag"@ {
        Some(CommandKind::Tag)
    } else if name == "custom_word"@ {
        Some(CommandKind::CustomWord)
    } else if name == "add_custom_word"@ {
        Some(CommandKind::AddCustomWord)
    } else if name == "add_default_word"@ {
        Some(CommandKind::AddDefaultWord)
    } else {
        None
    }
}

/// The command that a name stands for, if it is the name of one.
pub fn command_kind(name: &str) -> (kind: Option<CommandKind>)
    ensures
        kind == kind_of(name@),
{
    if same_text(name, "tw") {
        Some(CommandKind::Tw)
    } else if same_text(name, "tag") {
        Some(CommandKind::Tag)
    } else if same_text(name, "custom_word") {
        Some(CommandKind::CustomWord)
    } else if same_text(name, "add_custom_word") {
        Some(CommandKind::AddCustomWord)
    } else if same_text(name, "add_default_word") {
        Some(CommandKind::AddDefaultWord)
    } else {
        None
    }
}

/// How a message is meant.
#[derive(Clone, Copy, Debug, PartialEq, Eq, Structural)]
pub enum Tone {
    Joking,
    Sarcastic,
    Genuine,
    Reference,
    NotMad,
    NobodyHere,
    NotBeingRude,
    OffTopic,
    Lyrics,
    Metaphor,
    RhetoricalQuestion,
    Exaggeration,
    Romantic,
}

impl Tone {
    /// The tag that is written for the tone.
    pub open spec fn tag(self) -> Seq<char> {
        match self {
            Tone::Joking => "/j"@,
            Tone::Sarcastic => "/s"@,
            Tone::Genuine => "/gen"@,
            Tone::Reference => "/ref"@,
            Tone::NotMad => "/nm"@,
            Tone::NobodyHere => "/nay"@,
            Tone::NotBeingRude => "/nbr"@,
            Tone::OffTopic => "/ot"@,
            Tone::Lyrics => "/ly"@,
            Tone::Metaphor => "/m"@,
            Tone::RhetoricalQuestion => "/rh"@,
            Tone::Exaggeration => "/ex"@,
            Tone::Romantic => "/r"@,
        }
    }

    /// The tag that is written for the tone.
    pub fn value(&self) -> (tag: &'static str)
        ensures
            tag@ == self.tag(),
    {
        match self {
            Tone::Joking => "/j",
            Tone::Sarcastic => "/s",
            Tone::Genuine => "/gen",
            Tone::Reference => "/ref",
            Tone::NotMad => "/nm",
            Tone::NobodyHere => "/nay",
            Tone::NotBeingRude => "/nbr",
            Tone::OffTopic => "/ot",
            Tone::Lyrics => "/ly",
            Tone::Metaphor => "/m",
            Tone::RhetoricalQuestion => "/rh",
            Tone::Exaggeration => "/ex",
            Tone::Romantic => "/r",
        }
    }
}

/// The command that posts a message with a tone tag.
#[derive(Debug)]
pub struct Tag {
    /// The message.
    pub message: String,
    /// The tone.
    pub tag: Tone,
}

impl Tag {
    /// The text to post: the message, a space, the tag.
    pub fn content(&self) -> (text: String)
        ensures
            text@ == self.message@ + " "@ + self.tag.tag(),
    {
        let mut text = self.message.clone();
        text.append(" ");
        text.append(self.tag.value());
        text
    }
}

/// The command that posts a message behind a trigger warning.
#[derive(Debug)]
pub struct Tw {
    /// The message.
    pub message: String,
    /// Why the message may be upsetting.
    pub tw_type: String,
}

impl Tw {
    /// The text to post: the warning in the open, the message in a spoiler.
    pub fn content(&self) -> (text: String)
        ensures
            text@ == "tw "@ + self.tw_type@ + " ||"@ + self.message@ + "||"@,
    {
        let mut text = "tw ".to_owned();
        text.append(self.tw_type.as_str());
        text.append(" ||");
        text.append(self.message.as_str());
        text.append("||");
        text
    }
}

/// The command that adds a word of the guild.
#[derive(Debug)]
pub struct AddCustomWord {
    /// The word.
    pub word: String,
    /// The word is also proposed as a default word.
    pub suggest: bool,
}

/// The command that adds a default word.
#[derive(Debug)]
pub struct AddDefaultWord {
    /// The word.
    pub word: String,
    /// The category of the word.
    pub word_type: Category,
}

/// The part of the word command that adds a word.
#[derive(Debug)]
pub struct Add {
    /// The word.
    pub word: String,
    /// The word is also proposed as a default word.
    pub suggest: bool,
}

/// The part of the word command that removes a word.
#[derive(Debug)]
pub struct Remove {
    /// The word.
    pub word: String,
}

/// The command that adds or removes a word of the guild.
#[derive(Debug)]
pub enum CustomWord {
    Add(Add),
    Remove(Remove),
}

/// What the bot answers to a command.
#[derive(Clone, Copy, Debug, PartialEq, Eq, Structural)]
pub enum Reply {
    Done,
    NeedsManageGuild,
    NeedsManageServer,
    TagNeedsWebhooks,
    TwNeedsWebhooks,
    AlreadyAdded,
    NotThere,
}

impl Reply {
    /// The words of the answer.
    pub fn text(&self) -> (text: &'static str)
        ensures
            text@ == match *self {
                Reply::Done => "done!"@,
                Reply::NeedsManageGuild => "you need the manage guild permission to use this"@,
                Reply::NeedsManageServer => "you need `manage server` permission for this"@,
                Reply::TagNeedsWebhooks => "i need `manage webhooks` permissions for this"@,
                Reply::TwNeedsWebhooks => "i need `manage webhooks` permission for this"@,
                Reply::AlreadyAdded => "this word is already added!"@,
                Reply::NotThere => "the word isn't there anyway.."@,
            },
    {
        match self {
            Reply::Done => "done!",
            Reply::NeedsManageGuild => "you need the manage guild permission to use this",
            Reply::NeedsManageServer => "you need `manage server` permission for this",
            Reply::TagNeedsWebhooks => "i need `manage webhooks` permissions for this",
            Reply::TwNeedsWebhooks => "i need `manage webhooks` permission for this",
            Reply::AlreadyAdded => "this word is already added!",
            Reply::NotThere => "the word isn't there anyway..",
        }
    }
}

/// What is missing from an interaction that cannot be handled.
#[derive(Clone, Copy, Debug, PartialEq, Eq, Structural)]
pub enum CommandError {
    /// It does not say which member used it.
    NoMember,
    /// It does not give the member's permissions.
    NoPermissions,
    /// It does not say who the member is as a user.
    NoUser,
    /// It was not used in a guild.
    NoGuild,
    /// Its channel is not known.
    ChannelUnknown,
    /// Its channel is a thread without a parent.
    ThreadWithoutParent,
    /// The control does not carry the number of a rule.
    BadRuleId,
}

/// The member who used a command or a control.
#[derive(Debug)]
pub struct Member {
    /// The member's permissions in the channel, if the interaction gives
    /// them.
    pub permissions: Option<u64>,
    /// The member's name and number as a user, if the interaction gives
    /// them.
    pub user: Option<String>,
}

/// Whether a member may change the rules of a guild.
#[derive(Clone, Copy, Debug, PartialEq, Eq, Structural)]
pub enum Access {
    /// The member may, in this guild.
    Granted { guild: u64 },
    /// The member lacks the permission to manage the guild.
    Refused,
    /// The interaction lacks what is needed to tell.
    Failed { error: CommandError },
}

/// Whether a member may change the rules of a guild.
pub open spec fn access_of(member: Option<Member>, guild: Option<u64>) -> Access {
    match member {
        None => Access::Failed { error: CommandError::NoMember },
        Some(member) => match member.permissions {
            None => Access::Failed { error: CommandError::NoPermissions },
            Some(held) => if !holds(held, MANAGE_GUILD) {
                Access::Refused
            } else {
                match guild {
                    None => Access::Failed { error: CommandError::NoGuild },
                    Some(guild) => Access::Granted { guild },
                }
            },
        },
    }
}

/// Whether the member who used a command may change the rules of the guild:
/// only one who may manage the guild.
pub fn authorize(member: &Option<Member>, guild: Option<u64>) -> (access: Access)
    ensures
        access == access_of(*member, guild),
{
    match member {
        None => Access::Failed { error: CommandError::NoMember },
        Some(member) => match member.permissions {
            None => Access::Failed { error: CommandError::NoPermissions },
            Some(held) => if !may_manage_guild(held) {
                Access::Refused
            } else {
                match guild {
                    None => Access::Failed { error: CommandError::NoGuild },
                    Some(guild) => Access::Granted { guild },
                }
            },
        },
    }
}

/// What a word command changes.
#[derive(Debug)]
pub enum RuleChange {
    /// Nothing: the word is forbidden already.
    AlreadyAdded,
    /// Nothing: the word is not forbidden.
    NotThere,
    /// Nothing: the word was to be proposed, and the interaction does not
    /// say by whom.
    Failed,
    /// The word is added to the guild's words, and proposed to the bot's
    /// owner if a proposal is given.
    Add { word: String, proposal: Option<String> },
    /// The word is removed from the guild's words.
    Remove { word: String },
}

impl RuleChange {
    /// The answer to the member, if the command could be handled.
    pub fn reply(&self) -> (reply: Option<Reply>)
        ensures
            reply == match *self {
                RuleChange::AlreadyAdded => Some(Reply::AlreadyAdded),
                RuleChange::NotThere => Some(Reply::NotThere),
                RuleChange::Failed => None,
                RuleChange::Add { .. } => Some(Reply::Done),
                RuleChange::Remove { .. } => Some(Reply::Done),
            },
    {
        match self {
            RuleChange::AlreadyAdded => Some(Reply::AlreadyAdded),
            RuleChange::NotThere => Some(Reply::NotThere),
            RuleChange::Failed => None,
            RuleChange::Add { .. } => Some(Reply::Done),
            RuleChange::Remove { .. } => Some(Reply::Done),
        }
    }
}

/// The proposal that is sent to the bot's owner.
pub open spec fn proposal_of(author: Seq<char>, word: Seq<char>) -> Seq<char> {
    author + " suggested a word: "@ + word
}

/// The text of a proposal, if there is one.
pub open spec fn proposal_text(proposal: Option<String>) -> Option<Seq<char>> {
    match proposal {
        Some(text) => Some(text@),
        None => None,
    }
}

/// Whether a change is what adding a folded word comes to: nothing if the
/// word is in effect already, a failure if it was to be proposed and nobody
/// can be named as its author, else the word with its proposal.
pub open spec fn adds(
    change: RuleChange,
    folded: Seq<char>,
    suggest: bool,
    words: Seq<Word>,
    author: Option<String>,
) -> bool {
    if names(rules_of(words), folded) {
        change is AlreadyAdded
    } else if suggest && author is None {
        change is Failed
    } else {
        change matches RuleChange::Add { word, proposal } && word@ == folded && proposal_text(
            proposal,
        ) == if suggest {
            Some(proposal_of(author->0@, folded))
        } else {
            None
        }
    }
}

/// Whether a change is what removing a folded word comes to: nothing if the
/// word is none of the guild's own words, else the word.
pub open spec fn removes(change: RuleChange, folded: Seq<char>, own: Seq<Word>) -> bool {
    if names(rules_of(own), folded) {
        change matches RuleChange::Remove { word } && word@ == folded
    } else {
        change is NotThere
    }
}

/// What adding a word changes, given the word folded to lower case, the
/// words in effect in the guild and the member's user name.
pub fn add_word(folded: String, suggest: bool, words: &Vec<Word>, author: &Option<String>) -> (change:
    RuleChange)
    ensures
        adds(change, folded@, suggest, words@, *author),
{
    if has_word(words, &folded) {
        return RuleChange::AlreadyAdded;
    }
    if !suggest {
        return RuleChange::Add { word: folded, proposal: None };
    }
    match author {
        None => RuleChange::Failed,
        Some(author) => {
            let mut text = author.clone();
            text.append(" suggested a word: ");
            text.append(folded.as_str());
            RuleChange::Add { word: folded, proposal: Some(text) }
        },
    }
}

/// What removing a word changes, given the word folded to lower case and the
/// guild's own words. A default word is none of them: it stays, and the
/// answer says that the word is not there.
pub fn remove_word(folded: String, own: &Vec<Word>) -> (change: RuleChange)
    ensures
        removes(change, folded@, own@),
{
    if has_word(own, &folded) {
        RuleChange::Remove { word: folded }
    } else {
        RuleChange::NotThere
    }
}

/// What adding a word changes, given the word as it was typed. The word is
/// folded to lower case; a word that is in effect already is not added again.
pub fn decide_add(word: &str, suggest: bool, words: &Vec<Word>, author: &Option<String>) -> (change:
    RuleChange)
    ensures
        adds(change, lowercase(word@), suggest, words@, *author),
{
    add_word(word.to_lowercase(), suggest, words, author)
}

/// What removing a word changes, given the word as it was typed and the
/// guild's own words. The word is folded to lower case; a word that is none
/// of the guild's own is not removed.
pub fn decide_remove(word: &str, own: &Vec<Word>) -> (change: RuleChange)
    ensures
        removes(change, lowercase(word@), own@),
{
    remove_word(word.to_lowercase(), own)
}

impl AddCustomWord {
    /// What the command changes.
    pub fn decide(&self, words: &Vec<Word>, author: &Option<String>) -> (change: RuleChange)
        ensures
            adds(change, lowercase(self.word@), self.suggest, words@, *author),
    {
        decide_add(self.word.as_str(), self.suggest, words, author)
    }
}

impl CustomWord {
    /// What the command changes, given the words in effect in the guild and,
    /// among them, the guild's own. A word is added unless it is in effect;
    /// a word is removed if it is one of the guild's own.
    pub fn decide(&self, words: &Vec<Word>, own: &Vec<Word>, author: &Option<String>) -> (change:
        RuleChange)
        ensures
            match *self {
                CustomWord::Add(add) => adds(
                    change,
                    lowercase(add.word@),
                    add.suggest,
                    words@,
                    *author,
                ),
                CustomWord::Remove(remove) => removes(change, lowercase(remove.word@), own@),
            },
    {
        match self {
            CustomWord::Add(add) => decide_add(add.word.as_str(), add.suggest, words, author),
            CustomWord::Remove(remove) => decide_remove(remove.word.as_str(), own),
        }
    }
}

/// What the command for default words changes.
#[derive(Debug)]
pub enum DefaultChange {
    /// Nothing: the category holds the word already.
    AlreadyAdded,
    /// The word is added to the category.
    Add { word: String, category: Category },
}

impl DefaultChange {
    /// The answer to the member.
    pub fn reply(&self) -> (reply: Reply)
        ensures
            reply == match *self {
                DefaultChange::AlreadyAdded => Reply::AlreadyAdded,
                DefaultChange::Add { .. } => Reply::Done,
            },
    {
        match self {
            DefaultChange::AlreadyAdded => Reply::AlreadyAdded,
            DefaultChange::Add { .. } => Reply::Done,
        }
    }
}

/// Whether a change is what adding a folded default word comes to: nothing if
/// its category holds the word already, else the word in its category.
pub open spec fn adds_default(
    change: DefaultChange,
    folded: Seq<char>,
    category: Category,
    defaults: Seq<DefaultWord>,
) -> bool {
    if category_names(defaults, category, folded) {
        change is AlreadyAdded
    } else {
        change matches DefaultChange::Add { word, category: chosen } && word@ == folded && chosen
            == category
    }
}

/// What adding a default word changes, given the word folded to lower case
/// and the default words there are.
pub fn add_default(folded: String, category: Category, defaults: &Vec<DefaultWord>) -> (change:
    DefaultChange)
    ensures
        adds_default(change, folded@, category, defaults@),
{
    if has_default(defaults, category, &folded) {
        DefaultChange::AlreadyAdded
    } else {
        DefaultChange::Add { word: folded, category }
    }
}

impl AddDefaultWord {
    /// What the command changes, given the default words there are. The word
    /// is folded to lower case; a word that its category holds already is not
    /// added again.
    pub fn decide(&self, defaults: &Vec<DefaultWord>) -> (change: DefaultChange)
        ensures
            adds_default(change, lowercase(self.word@), self.word_type, defaults@),
    {
        add_default(self.word.as_str().to_lowercase(), self.word_type, defaults)
    }
}

/// What a command that posts in the member's name does.
#[derive(Debug)]
pub enum Posting {
    /// Nothing: the bot may not use webhooks in the channel.
    Refused,
    /// Nothing: the interaction cannot be handled.
    Failed { error: CommandError },
    /// The text is posted through the webhook of `relay_in`, to the thread
    /// if there is one, in the name of the member.
    Post { relay_in: u64, thread: Option<u64>, guild: u64, text: String },
}

/// What posting a text in a member's name comes to.
pub open spec fn posting_of(
    held: u64,
    channel: Option<Channel>,
    member: Option<Member>,
    guild: Option<u64>,
) -> Result<(u64, Option<u64>, u64), Option<CommandError>> {
    if !holds(held, MANAGE_WEBHOOKS) {
        Err(None)
    } else if channel is None {
        Err(Some(CommandError::ChannelUnknown))
    } else if pair_of(channel->0) is Err {
        Err(Some(CommandError::ThreadWithoutParent))
    } else if member is None {
        Err(Some(CommandError::NoMember))
    } else if member->0.user is None {
        Err(Some(CommandError::NoUser))
    } else if guild is None {
        Err(Some(CommandError::NoGuild))
    } else {
        Ok((pair_of(channel->0)->Ok_0.0, pair_of(channel->0)->Ok_0.1, guild->0))
    }
}

/// Decides whether and where a text is posted in the name of the member who
/// used a command, from the bot's permissions in the channel, the record of
/// the channel, and what the interaction says of the member and the guild.
pub fn post_as_member(
    held: u64,
    channel: Option<Channel>,
    member: &Option<Member>,
    guild: Option<u64>,
    text: String,
) -> (posting: Posting)
    ensures
        match posting_of(held, channel, *member, guild) {
            Err(None) => posting is Refused,
            Err(Some(error)) => posting == (Posting::Failed { error }),
            Ok(route) => posting == (Posting::Post {
                relay_in: route.0,
                thread: route.1,
                guild: route.2,
                text,
            }),
        },
{
    if !may_manage_webhooks(held) {
        return Posting::Refused;
    }
    let record = match channel {
        Some(record) => record,
        None => {
            return Posting::Failed { error: CommandError::ChannelUnknown };
        },
    };
    let pair = match channel_pair(&record) {
        Ok(pair) => pair,
        Err(_) => {
            return Posting::Failed { error: CommandError::ThreadWithoutParent };
        },
    };
    match member {
        None => Posting::Failed { error: CommandError::NoMember },
        Some(member) => if member.user.is_none() {
            Posting::Failed { error: CommandError::NoUser }
        } else {
            match guild {
                None => Posting::Failed { error: CommandError::NoGuild },
                Some(guild) => Posting::Post { relay_in: pair.0, thread: pair.1, guild, text },
            }
        },
    }
}

/// What using the control on a censored copy does.
#[derive(Debug)]
pub enum Lifting {
    /// Nothing: the member may not manage the guild.
    Refused,
    /// Nothing: the interaction cannot be handled.
    Failed { error: CommandError },
    /// The rule is one of the guild's own words: it is removed. The copy is
    /// shown without spoiler markup and without the control.
    Remove { rule: i32, text: String },
    /// The rule is a default word: the guild is exempted from it, and for
    /// every other guild it stays as it is. The copy is shown without
    /// spoiler markup and without the control.
    Exempt { guild: u64, rule: i32, text: String },
    /// The rule is gone already: nothing changes in the store. The copy is
    /// shown without spoiler markup and without the control.
    Nothing { text: String },
}

/// Some word of the list has the number.
pub open spec fn numbers(rules: Seq<Rule>, id: i32) -> bool {
    exists|i: int| 0 <= i < rules.len() && (#[trigger] rules[i]).0 == id
}

/// The rules of a list of default words.
pub open spec fn default_rules(defaults: Seq<DefaultWord>) -> Seq<Rule> {
    Seq::new(defaults.len(), |i: int| (defaults[i].id, defaults[i].word@))
}

/// The guild and the rule that a use of the control is about, if the member
/// may lift rules in the guild and the control carries a rule's number.
pub open spec fn lifting_of(member: Option<Member>, guild: Option<u64>, rule: Option<i32>) -> Result<
    (u64, i32),
    Option<CommandError>,
> {
    match access_of(member, guild) {
        Access::Failed { error } => Err(Some(error)),
        Access::Refused => Err(None),
        Access::Granted { guild } => match rule {
            None => Err(Some(CommandError::BadRuleId)),
            Some(rule) => Ok((guild, rule)),
        },
    }
}

/// Whether a lifting is what using the control comes to.
pub open spec fn lifts(
    lifting: Lifting,
    member: Option<Member>,
    guild: Option<u64>,
    rule: Option<i32>,
    content: Seq<char>,
    own: Seq<Word>,
    defaults: Seq<DefaultWord>,
) -> bool {
    match lifting_of(member, guild, rule) {
        Err(None) => lifting is Refused,
        Err(Some(error)) => lifting == (Lifting::Failed { error }),
        Ok((guild, id)) => if numbers(rules_of(own), id) {
            lifting matches Lifting::Remove { rule: lifted, text } && lifted == id && text@
                == without_pipes(content)
        } else if numbers(default_rules(defaults), id) {
            lifting matches Lifting::Exempt { guild: scope, rule: lifted, text } && scope == guild
                && lifted == id && text@ == without_pipes(content)
        } else {
            lifting matches Lifting::Nothing { text } && text@ == without_pipes(content)
        },
    }
}

fn owns_rule(own: &Vec<Word>, id: i32) -> (found: bool)
    ensures
        found == numbers(rules_of(own@), id),
{
    let mut i: usize = 0;
    while i < own.len()
        invariant
            i <= own.len(),
            forall|j: int| 0 <= j < i ==> (#[trigger] rules_of(own@)[j]).0 != id,
        decreases own.len() - i,
    {
        if own[i].id == id {
            assert(rules_of(own@)[i as int].0 == id);
            return true;
        }
        i += 1;
    }
    false
}

fn lists_rule(defaults: &Vec<DefaultWord>, id: i32) -> (found: bool)
    ensures
        found == numbers(default_rules(defaults@), id),
{
    let mut i: usize = 0;
    while i < defaults.len()
        invariant
            i <= defaults.len(),
            forall|j: int| 0 <= j < i ==> (#[trigger] default_rules(defaults@)[j]).0 != id,
        decreases defaults.len() - i,
    {
        if defaults[i].id == id {
            assert(default_rules(defaults@)[i as int].0 == id);
            return true;
        }
        i += 1;
    }
    false
}

/// Decides what using the control on a censored copy does, given the number
/// that the control carries, the guild's own words and the default words.
///
/// Only a member who may manage the guild lifts a rule; that the bot was
/// allowed to censor the message does not count. One of the guild's own
/// words is removed. A default word is not removed: the guild is exempted
/// from it, and it stays in effect for every other guild. A rule that is
/// gone already changes nothing.
pub fn lift_rule(
    member: &Option<Member>,
    guild: Option<u64>,
    rule: Option<i32>,
    content: &str,
    own: &Vec<Word>,
    defaults: &Vec<DefaultWord>,
) -> (lifting: Lifting)
    ensures
        lifts(lifting, *member, guild, rule, content@, own@, defaults@),
{
    let scope = match authorize(member, guild) {
        Access::Failed { error } => {
            return Lifting::Failed { error };
        },
        Access::Refused => {
            return Lifting::Refused;
        },
        Access::Granted { guild } => guild,
    };
    let id = match rule {
        None => {
            return Lifting::Failed { error: CommandError::BadRuleId };
        },
        Some(id) => id,
    };
    let text = strip_markup(content);
    if owns_rule(own, id) {
        Lifting::Remove { rule: id, text }
    } else if lists_rule(defaults, id) {
        Lifting::Exempt { guild: scope, rule: id, text }
    } else {
        Lifting::Nothing { text }
    }
}

/// Decides what using the control on a censored copy does, given the text
/// that the control carries.
pub fn lift(
    member: &Option<Member>,
    guild: Option<u64>,
    custom_id: &str,
    content: &str,
    own: &Vec<Word>,
    defaults: &Vec<DefaultWord>,
) -> (lifting: Lifting)
    ensures
        lifts(lifting, *member, guild, rule_id_of(custom_id@), content@, own@, defaults@),
{
    lift_rule(member, guild, parse_rule_id(custom_id), content, own, defaults)
}

/// Taking the markup out of a text that holds none leaves the text as it is:
/// using the control a second time shows the same copy.
pub proof fn stripping_twice_changes_nothing(text: Seq<char>)
    ensures
        without_pipes(without_pipes(text)) == without_pipes(text),
    decreases text.len(),
{
    reveal(Seq::filter);
    if text.len() > 0 {
        stripping_twice_changes_nothing(text.drop_last());
        let head = without_pipes(text.drop_last());
        if text.last() != '|' {
            assert(without_pipes(text) == head.push(text.last()));
            assert(head.push(text.last()).drop_last() =~= head);
        }
    }
}

} // verus!
