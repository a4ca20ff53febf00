use spoiler_bot::commands::{
    add_default, add_word, authorize, command_kind, decide_add, decide_remove, lift, lift_rule,
    post_as_member, remove_word, Access, Add, AddCustomWord, AddDefaultWord, CommandError,
    CommandKind, CustomWord, DefaultChange, Lifting, Member, Posting, Remove, Reply, RuleChange,
    Tag, Tone, Tw,
};
use spoiler_bot::permissions::{MANAGE_GUILD, MANAGE_WEBHOOKS, SEND_MESSAGES};
use spoiler_bot::routing::{Channel, ChannelKind};
use spoiler_bot::words::{Category, DefaultWord, Word};

fn moderator() -> Option<Member> {
    Some(Member { permissions: Some(MANAGE_GUILD), user: Some("mod#1".to_string()) })
}

fn guest() -> Option<Member> {
    Some(Member { permissions: Some(SEND_MESSAGES), user: Some("guest#2".to_string()) })
}

fn rules() -> Vec<Word> {
    vec![Word { id: 1, word: "spam".to_string() }]
}

#[test]
fn commands_are_known_by_name() {
    assert_eq!(command_kind("tw"), Some(CommandKind::Tw));
    assert_eq!(command_kind("tag"), Some(CommandKind::Tag));
    assert_eq!(command_kind("custom_word"), Some(CommandKind::CustomWord));
    assert_eq!(command_kind("add_custom_word"), Some(CommandKind::AddCustomWord));
    assert_eq!(command_kind("add_default_word"), Some(CommandKind::AddDefaultWord));
    assert_eq!(command_kind("TW"), None);
    assert_eq!(command_kind("tags"), None);
    assert_eq!(command_kind(""), None);
}

#[test]
fn every_tone_has_its_tag() {
    let tags = [
        (Tone::Joking, "/j"),
        (Tone::Sarcastic, "/s"),
        (Tone::Genuine, "/gen"),
        (Tone::Reference, "/ref"),
        (Tone::NotMad, "/nm"),
        (Tone::NobodyHere, "/nay"),
        (Tone::NotBeingRude, "/nbr"),
        (Tone::OffTopic, "/ot"),
        (Tone::Lyrics, "/ly"),
        (Tone::Metaphor, "/m"),
        (Tone::RhetoricalQuestion, "/rh"),
        (Tone::Exaggeration, "/ex"),
        (Tone::Romantic, "/r"),
    ];
    for (tone, tag) in tags {
        assert_eq!(tone.value(), tag);
    }
}

#[test]
fn a_tagged_message_ends_in_its_tag() {
    let tag = Tag { message: "nice hat".to_string(), tag: Tone::Sarcastic };
    assert_eq!(tag.content(), "nice hat /s");
    let empty = Tag { message: String::new(), tag: Tone::Genuine };
    assert_eq!(empty.content(), " /gen");
}

#[test]
fn a_warned_message_is_put_in_a_spoiler() {
    let tw = Tw { message: "it bites".to_string(), tw_type: "spiders".to_string() };
    assert_eq!(tw.content(), "tw spiders ||it bites||");
}

#[test]
fn every_reply_has_its_words() {
    assert_eq!(Reply::Done.text(), "done!");
    assert_eq!(Reply::NeedsManageGuild.text(), "you need the manage guild permission to use this");
    assert_eq!(Reply::NeedsManageServer.text(), "you need `manage server` permission for this");
    assert_eq!(Reply::TagNeedsWebhooks.text(), "i need `manage webhooks` permissions for this");
    assert_eq!(Reply::TwNeedsWebhooks.text(), "i need `manage webhooks` permission for this");
    assert_eq!(Reply::AlreadyAdded.text(), "this word is already added!");
    assert_eq!(Reply::NotThere.text(), "the word isn't there anyway..");
}

#[test]
fn only_a_moderator_changes_the_rules() {
    assert_eq!(authorize(&moderator(), Some(10)), Access::Granted { guild: 10 });
    assert_eq!(authorize(&guest(), Some(10)), Access::Refused);
    assert_eq!(authorize(&None, Some(10)), Access::Failed { error: CommandError::NoMember });
    let bare = Some(Member { permissions: None, user: None });
    assert_eq!(authorize(&bare, Some(10)), Access::Failed { error: CommandError::NoPermissions });
    assert_eq!(authorize(&moderator(), None), Access::Failed { error: CommandError::NoGuild });
    // The permission is looked at before the guild.
    assert_eq!(authorize(&guest(), None), Access::Refused);
}

#[test]
fn a_new_word_is_added_in_lower_case() {
    match decide_add("HAM", false, &rules(), &None) {
        RuleChange::Add { word, proposal } => {
            assert_eq!(word, "ham");
            assert_eq!(proposal, None);
        }
        other => panic!("{other:?}"),
    }
}

#[test]
fn a_known_word_is_not_added_again() {
    assert!(matches!(decide_add("spam", false, &rules(), &None), RuleChange::AlreadyAdded));
    assert!(matches!(decide_add("SPAM", true, &rules(), &None), RuleChange::AlreadyAdded));
}

#[test]
fn a_proposal_names_its_author() {
    let author = Some("mod#1".to_string());
    match decide_add("Ham", true, &rules(), &author) {
        RuleChange::Add { word, proposal } => {
            assert_eq!(word, "ham");
            assert_eq!(proposal, Some("mod#1 suggested a word: ham".to_string()));
        }
        other => panic!("{other:?}"),
    }
}

#[test]
fn a_proposal_without_an_author_fails() {
    assert!(matches!(decide_add("ham", true, &rules(), &None), RuleChange::Failed));
}

#[test]
fn a_known_word_is_removed() {
    match decide_remove("Spam", &rules()) {
        RuleChange::Remove { word } => assert_eq!(word, "spam"),
        other => panic!("{other:?}"),
    }
    assert!(matches!(decide_remove("ham", &rules()), RuleChange::NotThere));
    assert!(matches!(decide_remove("spam", &Vec::new()), RuleChange::NotThere));
}

#[test]
fn the_word_commands_decide_as_their_parts_do() {
    let add = AddCustomWord { word: "Ham".to_string(), suggest: false };
    assert!(matches!(add.decide(&rules(), &None), RuleChange::Add { .. }));
    let again = AddCustomWord { word: "Spam".to_string(), suggest: false };
    assert!(matches!(again.decide(&rules(), &None), RuleChange::AlreadyAdded));
    let add = CustomWord::Add(Add { word: "ham".to_string(), suggest: true });
    assert!(matches!(add.decide(&rules(), &rules(), &None), RuleChange::Failed));
    let remove = CustomWord::Remove(Remove { word: "SPAM".to_string() });
    match remove.decide(&rules(), &rules(), &None) {
        RuleChange::Remove { word } => assert_eq!(word, "spam"),
        other => panic!("{other:?}"),
    }
    let remove = CustomWord::Remove(Remove { word: "ham".to_string() });
    assert!(matches!(remove.decide(&rules(), &rules(), &None), RuleChange::NotThere));
    // A word that is in effect only as a default word is not the guild's to
    // remove, and is not added either.
    let remove = CustomWord::Remove(Remove { word: "spam".to_string() });
    assert!(matches!(remove.decide(&rules(), &Vec::new(), &None), RuleChange::NotThere));
    let add = CustomWord::Add(Add { word: "spam".to_string(), suggest: false });
    assert!(matches!(add.decide(&rules(), &Vec::new(), &None), RuleChange::AlreadyAdded));
}

#[test]
fn every_change_has_its_reply() {
    assert_eq!(RuleChange::AlreadyAdded.reply(), Some(Reply::AlreadyAdded));
    assert_eq!(RuleChange::NotThere.reply(), Some(Reply::NotThere));
    assert_eq!(RuleChange::Failed.reply(), None);
    let add = RuleChange::Add { word: "ham".to_string(), proposal: None };
    assert_eq!(add.reply(), Some(Reply::Done));
    let remove = RuleChange::Remove { word: "ham".to_string() };
    assert_eq!(remove.reply(), Some(Reply::Done));
}

#[test]
fn a_default_word_is_stored_in_lower_case() {
    let add = AddDefaultWord { word: "SpAm".to_string(), word_type: Category::Swear };
    match add.decide(&Vec::new()) {
        DefaultChange::Add { word, category } => {
            assert_eq!(word, "spam");
            assert_eq!(category, Category::Swear);
        }
        other => panic!("{other:?}"),
    }
}

#[test]
fn a_folded_word_is_taken_as_it_stands() {
    // The word is not folded again: an upper-case word is another word.
    match add_word("SPAM".to_string(), false, &rules(), &None) {
        RuleChange::Add { word, proposal } => {
            assert_eq!(word, "SPAM");
            assert_eq!(proposal, None);
        }
        other => panic!("{other:?}"),
    }
    assert!(matches!(add_word("spam".to_string(), false, &rules(), &None), RuleChange::AlreadyAdded));
    assert!(matches!(remove_word("SPAM".to_string(), &rules()), RuleChange::NotThere));
    match remove_word("spam".to_string(), &rules()) {
        RuleChange::Remove { word } => assert_eq!(word, "spam"),
        other => panic!("{other:?}"),
    }
    let defaults = vec![DefaultWord { id: 1, word: "spam".to_string(), category: Category::Swear }];
    assert!(matches!(
        add_default("spam".to_string(), Category::Swear, &defaults),
        DefaultChange::AlreadyAdded
    ));
    assert!(matches!(
        add_default("SPAM".to_string(), Category::Swear, &defaults),
        DefaultChange::Add { .. }
    ));
}

#[test]
fn a_command_posts_through_the_channel_or_its_parent() {
    let channel = Channel { id: 20, kind: ChannelKind::GuildText, parent_id: None };
    let posting = post_as_member(MANAGE_WEBHOOKS, Some(channel), &guest(), Some(10), "hi".to_string());
    match posting {
        Posting::Post { relay_in, thread, guild, text } => {
            assert_eq!((relay_in, thread, guild), (20, None, 10));
            assert_eq!(text, "hi");
        }
        other => panic!("{other:?}"),
    }
    let thread = Channel { id: 21, kind: ChannelKind::GuildNewsThread, parent_id: Some(20) };
    let posting = post_as_member(MANAGE_WEBHOOKS, Some(thread), &guest(), Some(10), "hi".to_string());
    assert!(matches!(posting, Posting::Post { relay_in: 20, thread: Some(21), guild: 10, .. }));
}

#[test]
fn a_command_posts_only_where_the_bot_may_use_webhooks() {
    let channel = Channel { id: 20, kind: ChannelKind::GuildText, parent_id: None };
    let posting = post_as_member(SEND_MESSAGES, Some(channel), &guest(), Some(10), "hi".to_string());
    assert!(matches!(posting, Posting::Refused));
    // The permission is looked at first.
    let posting = post_as_member(0, None, &None, None, "hi".to_string());
    assert!(matches!(posting, Posting::Refused));
}

#[test]
fn a_command_that_lacks_something_fails() {
    let channel = Channel { id: 20, kind: ChannelKind::GuildText, parent_id: None };
    let orphan = Channel { id: 21, kind: ChannelKind::GuildPublicThread, parent_id: None };
    let nameless = Some(Member { permissions: None, user: None });
    let failed = |posting: Posting| match posting {
        Posting::Failed { error } => error,
        other => panic!("{other:?}"),
    };
    let held = MANAGE_WEBHOOKS;
    assert_eq!(
        failed(post_as_member(held, None, &guest(), Some(10), String::new())),
        CommandError::ChannelUnknown
    );
    assert_eq!(
        failed(post_as_member(held, Some(orphan), &guest(), Some(10), String::new())),
        CommandError::ThreadWithoutParent
    );
    assert_eq!(
        failed(post_as_member(held, Some(channel), &None, Some(10), String::new())),
        CommandError::NoMember
    );
    assert_eq!(
        failed(post_as_member(held, Some(channel), &nameless, Some(10), String::new())),
        CommandError::NoUser
    );
    assert_eq!(
        failed(post_as_member(held, Some(channel), &guest(), None, String::new())),
        CommandError::NoGuild
    );
}

fn own() -> Vec<Word> {
    vec![Word { id: 42, word: "spam".to_string() }]
}

fn defaults() -> Vec<DefaultWord> {
    vec![DefaultWord { id: 7, word: "eggs".to_string(), category: Category::Swear }]
}

#[test]
fn lifting_an_own_word_removes_it() {
    match lift(&moderator(), Some(10), "42", "this is ||spam||", &own(), &defaults()) {
        Lifting::Remove { rule, text } => {
            assert_eq!(rule, 42);
            assert_eq!(text, "this is spam");
        }
        other => panic!("{other:?}"),
    }
}

#[test]
fn lifting_a_default_word_exempts_the_guild_only() {
    match lift(&moderator(), Some(10), "7", "||eggs||", &own(), &defaults()) {
        Lifting::Exempt { guild, rule, text } => {
            assert_eq!(guild, 10);
            assert_eq!(rule, 7);
            assert_eq!(text, "eggs");
        }
        other => panic!("{other:?}"),
    }
}

#[test]
fn lifting_again_changes_nothing_and_shows_the_same_copy() {
    // The rule is gone: the control may still be used, and nothing happens.
    match lift(&moderator(), Some(10), "42", "this is spam", &Vec::new(), &defaults()) {
        Lifting::Nothing { text } => assert_eq!(text, "this is spam"),
        other => panic!("{other:?}"),
    }
    match lift(&moderator(), Some(10), "-7", "||x||", &own(), &defaults()) {
        Lifting::Nothing { text } => assert_eq!(text, "x"),
        other => panic!("{other:?}"),
    }
}

#[test]
fn only_a_moderator_lifts_a_rule() {
    let refused = lift(&guest(), Some(10), "42", "||spam||", &own(), &defaults());
    assert!(matches!(refused, Lifting::Refused));
    // The permission is looked at before the number and the guild.
    let refused = lift(&guest(), None, "nonsense", "||spam||", &own(), &defaults());
    assert!(matches!(refused, Lifting::Refused));
}

#[test]
fn a_control_that_lacks_something_fails() {
    let failed = |lifting: Lifting| match lifting {
        Lifting::Failed { error } => error,
        other => panic!("{other:?}"),
    };
    let bare = Some(Member { permissions: None, user: None });
    let none = Vec::new();
    let try_lift = |member: &Option<Member>, guild: Option<u64>, id: &str| {
        lift(member, guild, id, "", &none, &Vec::new())
    };
    assert_eq!(failed(try_lift(&None, Some(10), "42")), CommandError::NoMember);
    assert_eq!(failed(try_lift(&bare, Some(10), "42")), CommandError::NoPermissions);
    assert_eq!(failed(try_lift(&moderator(), None, "42")), CommandError::NoGuild);
    assert_eq!(failed(try_lift(&moderator(), Some(10), "forty-two")), CommandError::BadRuleId);
    assert_eq!(failed(try_lift(&moderator(), Some(10), "")), CommandError::BadRuleId);
    assert_eq!(failed(try_lift(&moderator(), Some(10), "2147483648")), CommandError::BadRuleId);
    assert_eq!(
        failed(lift_rule(&moderator(), Some(10), None, "", &none, &Vec::new())),
        CommandError::BadRuleId
    );
}

#[test]
fn a_rule_given_by_number_is_lifted() {
    match lift_rule(&moderator(), Some(10), Some(42), "a ||b|| c", &own(), &defaults()) {
        Lifting::Remove { rule, text } => {
            assert_eq!(rule, 42);
            assert_eq!(text, "a b c");
        }
        other => panic!("{other:?}"),
    }
    // An own word is removed even if a default rule has the same number.
    let same = vec![DefaultWord { id: 42, word: "x".to_string(), category: Category::Trigger }];
    let lifting = lift_rule(&moderator(), Some(10), Some(42), "", &own(), &same);
    assert!(matches!(lifting, Lifting::Remove { rule: 42, .. }));
}

#[test]
fn a_default_word_is_added_once_to_a_category() {
    let defaults = vec![DefaultWord { id: 1, word: "spam".to_string(), category: Category::Swear }];
    let again = AddDefaultWord { word: "SPAM".to_string(), word_type: Category::Swear };
    assert!(matches!(again.decide(&defaults), DefaultChange::AlreadyAdded));
    assert_eq!(again.decide(&defaults).reply(), Reply::AlreadyAdded);
    // The same text may stand in the other category.
    let other = AddDefaultWord { word: "SPAM".to_string(), word_type: Category::Trigger };
    match other.decide(&defaults) {
        DefaultChange::Add { word, category } => {
            assert_eq!(word, "spam");
            assert_eq!(category, Category::Trigger);
        }
        other => panic!("{other:?}"),
    }
    let new = AddDefaultWord { word: "Eggs".to_string(), word_type: Category::Swear };
    assert_eq!(new.decide(&defaults).reply(), Reply::Done);
    assert_eq!(new.decide(&Vec::new()).reply(), Reply::Done);
}
