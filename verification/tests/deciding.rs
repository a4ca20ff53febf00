use spoiler_bot::censor::MatchMode;
use spoiler_bot::permissions::{
    contains, may_manage_guild, may_manage_webhooks, privilege, Privilege, MANAGE_GUILD,
    MANAGE_MESSAGES, MANAGE_WEBHOOKS, SEND_MESSAGES,
};
use spoiler_bot::pipeline::{
    act_on, advance, control_label, evaluate, notice, plan, screen, Command, Event, Message, Plan,
    Settings, Stage, CONTENT_LIMIT,
};
use spoiler_bot::routing::{channel_pair, Channel, ChannelKind, RoutingError};
use spoiler_bot::words::{resolve, Category, DefaultWord, Word};
use twilight_model::{channel::ChannelType, guild::Permissions};

const GUILD: u64 = 10;
const CHANNEL: u64 = 20;
const THREAD: u64 = 21;
const MESSAGE: u64 = 30;

fn message(content: &str) -> Message {
    Message {
        id: MESSAGE,
        channel_id: CHANNEL,
        guild_id: Some(GUILD),
        author_is_bot: false,
        has_member: true,
        edited: false,
        content: content.to_string(),
    }
}

fn settings() -> Settings {
    Settings { mode: MatchMode::ExactToken, censor_edits: false }
}

fn text_channel() -> Channel {
    Channel { id: CHANNEL, kind: ChannelKind::GuildText, parent_id: None }
}

fn spam_rules(opt_out: Option<Category>) -> Vec<Word> {
    let defaults = vec![DefaultWord { id: 1, word: "spam".to_string(), category: Category::Swear }];
    resolve(&Vec::new(), &defaults, opt_out, &Vec::new())
}

const FULL: u64 = MANAGE_MESSAGES | MANAGE_WEBHOOKS | SEND_MESSAGES;

#[test]
fn a_forbidden_word_is_swapped_for_a_censored_copy() {
    let plan = plan(&message("this is spam"), &spam_rules(None), settings(), FULL, Some(text_channel()));
    match plan {
        Plan::Swap { delete_in, message, relay_in, thread, text, control } => {
            assert_eq!(delete_in, CHANNEL);
            assert_eq!(message, MESSAGE);
            assert_eq!(relay_in, CHANNEL);
            assert_eq!(thread, None);
            assert_eq!(text, "this is ||spam||");
            assert_eq!(control, Some(1));
        }
        other => panic!("{other:?}"),
    }
    // The author's message goes first, the copy follows.
    let (stage, command) = advance(Stage::Received, Event::Evaluated { matched: true });
    assert_eq!(command, Command::CheckPrivileges);
    let (stage, command) = advance(stage, Event::Privileges { level: privilege(FULL) });
    assert_eq!(command, Command::Delete);
    let (stage, command) = advance(stage, Event::Deleted { ok: true });
    assert_eq!(command, Command::Relay);
    let (stage, command) = advance(stage, Event::Relayed { ok: true });
    assert_eq!((stage, command), (Stage::Relayed, Command::Finish));
}

#[test]
fn without_message_management_only_a_notice_is_posted() {
    let held = MANAGE_WEBHOOKS | SEND_MESSAGES;
    let plan = plan(&message("this is spam"), &spam_rules(None), settings(), held, Some(text_channel()));
    assert!(matches!(plan, Plan::Notify { channel: CHANNEL }));
    let (stage, command) = advance(Stage::Received, Event::Evaluated { matched: true });
    assert_eq!(command, Command::CheckPrivileges);
    let (stage, command) = advance(stage, Event::Privileges { level: privilege(held) });
    assert_eq!((stage, command), (Stage::Done, Command::Notify));
    // No delete and no relay follow, whatever is reported.
    assert_eq!(advance(stage, Event::Deleted { ok: true }), (Stage::Done, Command::Finish));
    assert_eq!(advance(stage, Event::Relayed { ok: true }), (Stage::Done, Command::Finish));
}

#[test]
fn an_opted_out_category_causes_nothing() {
    let rules = spam_rules(Some(Category::Swear));
    assert!(rules.is_empty());
    let plan = plan(&message("this is spam"), &rules, settings(), FULL, Some(text_channel()));
    assert!(matches!(plan, Plan::Clean));
    assert_eq!(
        advance(Stage::Received, Event::Evaluated { matched: false }),
        (Stage::Done, Command::Finish)
    );
}

#[test]
fn without_any_permission_nothing_is_done() {
    let plan = plan(&message("this is spam"), &spam_rules(None), settings(), 0, Some(text_channel()));
    assert!(matches!(plan, Plan::Silent));
    assert_eq!(
        advance(Stage::Evaluated, Event::Privileges { level: Privilege::Silent }),
        (Stage::Done, Command::Finish)
    );
}

#[test]
fn a_bot_author_is_ignored() {
    let mut message = message("this is spam");
    message.author_is_bot = true;
    assert_eq!(screen(&message, settings()), None);
    let plan = plan(&message, &spam_rules(None), settings(), FULL, Some(text_channel()));
    assert!(matches!(plan, Plan::Ignore));
}

#[test]
fn a_message_outside_a_guild_is_ignored() {
    let mut message = message("this is spam");
    message.guild_id = None;
    assert_eq!(screen(&message, settings()), None);
    let plan = plan(&message, &spam_rules(None), settings(), FULL, Some(text_channel()));
    assert!(matches!(plan, Plan::Ignore));
}

#[test]
fn a_message_without_its_member_is_ignored() {
    let mut message = message("this is spam");
    message.has_member = false;
    assert_eq!(screen(&message, settings()), None);
    let plan = plan(&message, &spam_rules(None), settings(), FULL, Some(text_channel()));
    assert!(matches!(plan, Plan::Ignore));
}

#[test]
fn an_edit_is_censored_only_where_asked_for() {
    let mut message = message("this is spam");
    message.edited = true;
    assert_eq!(screen(&message, settings()), None);
    let with_edits = Settings { mode: MatchMode::ExactToken, censor_edits: true };
    assert_eq!(screen(&message, with_edits), Some(GUILD));
    message.edited = false;
    assert_eq!(screen(&message, settings()), Some(GUILD));
}

#[test]
fn a_message_in_a_thread_is_relayed_through_the_parent() {
    let mut message = message("spam");
    message.channel_id = THREAD;
    let thread =
        Channel { id: THREAD, kind: ChannelKind::GuildPublicThread, parent_id: Some(CHANNEL) };
    let plan = plan(&message, &spam_rules(None), settings(), FULL, Some(thread));
    match plan {
        Plan::Swap { delete_in, relay_in, thread, text, .. } => {
            assert_eq!(delete_in, THREAD);
            assert_eq!(relay_in, CHANNEL);
            assert_eq!(thread, Some(THREAD));
            assert_eq!(text, "||spam||");
        }
        other => panic!("{other:?}"),
    }
}

#[test]
fn nothing_is_deleted_where_the_copy_cannot_be_routed() {
    let rules = spam_rules(None);
    let orphan = Channel { id: THREAD, kind: ChannelKind::GuildPrivateThread, parent_id: None };
    assert!(matches!(
        plan(&message("spam"), &rules, settings(), FULL, Some(orphan)),
        Plan::Unroutable
    ));
    assert!(matches!(plan(&message("spam"), &rules, settings(), FULL, None), Plan::Unroutable));
}

#[test]
fn the_matching_mode_is_a_setting() {
    let rules = vec![Word { id: 5, word: "ass".to_string() }];
    let substring = Settings { mode: MatchMode::Substring, censor_edits: false };
    let hidden = plan(&message("class"), &rules, substring, FULL, Some(text_channel()));
    assert!(matches!(hidden, Plan::Swap { .. }));
    let clean = plan(&message("class"), &rules, settings(), FULL, Some(text_channel()));
    assert!(matches!(clean, Plan::Clean));
}

#[test]
fn one_hidden_word_gets_a_control() {
    let rules = vec![Word { id: 4, word: "eggs".to_string() }, Word { id: 9, word: "spam".to_string() }];
    let finding = evaluate("Spam, spam and SPAM", &rules, MatchMode::ExactToken).unwrap();
    assert_eq!(finding.text, "||spam||, ||spam|| and ||spam||");
    assert_eq!(finding.control, Some(9));
}

#[test]
fn two_hidden_words_get_no_control() {
    let rules = vec![Word { id: 4, word: "eggs".to_string() }, Word { id: 9, word: "spam".to_string() }];
    let finding = evaluate("spam and eggs", &rules, MatchMode::ExactToken).unwrap();
    assert_eq!(finding.text, "||spam|| and ||eggs||");
    assert_eq!(finding.control, None);
}

#[test]
fn a_word_behind_an_unclosed_delimiter_is_hidden_and_gets_a_control() {
    let rules = vec![Word { id: 9, word: "spam".to_string() }];
    let finding = evaluate("|| spam", &rules, MatchMode::ExactToken).unwrap();
    assert_eq!(finding.text, "|| ||||spam||");
    assert_eq!(finding.control, Some(9));
}

#[test]
fn an_exempted_default_word_causes_nothing_in_that_guild() {
    let defaults = vec![DefaultWord { id: 1, word: "spam".to_string(), category: Category::Swear }];
    let here = resolve(&Vec::new(), &defaults, None, &vec![1]);
    let there = resolve(&Vec::new(), &defaults, None, &Vec::new());
    let clean = plan(&message("this is spam"), &here, settings(), FULL, Some(text_channel()));
    assert!(matches!(clean, Plan::Clean));
    let swap = plan(&message("this is spam"), &there, settings(), FULL, Some(text_channel()));
    assert!(matches!(swap, Plan::Swap { .. }));
}

#[test]
fn nothing_to_hide_gives_no_finding() {
    let rules = vec![Word { id: 9, word: "spam".to_string() }];
    assert!(evaluate("ham", &rules, MatchMode::ExactToken).is_none());
    assert!(evaluate("||spam||", &rules, MatchMode::Substring).is_none());
}

#[test]
fn a_failed_delete_leaves_the_message_and_is_reported() {
    assert_eq!(
        advance(Stage::PrivilegeChecked, Event::Deleted { ok: false }),
        (Stage::Done, Command::Report)
    );
}

#[test]
fn a_failed_relay_after_the_delete_is_escalated() {
    assert_eq!(
        advance(Stage::Deleted, Event::Relayed { ok: false }),
        (Stage::Done, Command::Escalate)
    );
    assert_eq!(advance(Stage::Deleted, Event::Unavailable), (Stage::Done, Command::Escalate));
}

#[test]
fn an_unreadable_store_is_reported() {
    assert_eq!(advance(Stage::Received, Event::Unavailable), (Stage::Done, Command::Report));
}

#[test]
fn a_finished_message_is_never_taken_up_again() {
    let events = [
        Event::Unavailable,
        Event::Evaluated { matched: true },
        Event::Evaluated { matched: false },
        Event::Privileges { level: Privilege::Swap },
        Event::Privileges { level: Privilege::NoticeOnly },
        Event::Deleted { ok: true },
        Event::Relayed { ok: true },
        Event::Relayed { ok: false },
    ];
    for event in events {
        assert_eq!(advance(Stage::Done, event), (Stage::Done, Command::Finish));
        assert_eq!(advance(Stage::Relayed, event), (Stage::Done, Command::Finish));
    }
}

#[test]
fn an_event_out_of_turn_ends_the_work() {
    assert_eq!(advance(Stage::Received, Event::Deleted { ok: true }), (Stage::Done, Command::Finish));
    assert_eq!(
        advance(Stage::Evaluated, Event::Relayed { ok: true }),
        (Stage::Done, Command::Finish)
    );
    assert_eq!(
        advance(Stage::PrivilegeChecked, Event::Evaluated { matched: true }),
        (Stage::Done, Command::Finish)
    );
}

#[test]
fn the_notice_names_the_missing_permissions() {
    assert_eq!(
        notice(),
        "there's a word to put in spoilers here but i need `manage messages` and `manage webhooks` permissions first"
    );
    assert_eq!(control_label(), "allow this word (moderator only)");
}

#[test]
fn a_thread_is_routed_through_its_parent() {
    for kind in [
        ChannelKind::GuildNewsThread,
        ChannelKind::GuildPublicThread,
        ChannelKind::GuildPrivateThread,
    ] {
        assert!(kind.is_thread());
        let thread = Channel { id: THREAD, kind, parent_id: Some(CHANNEL) };
        assert_eq!(channel_pair(&thread), Ok((CHANNEL, Some(THREAD))));
    }
}

#[test]
fn any_other_channel_is_routed_through_itself() {
    for kind in [
        ChannelKind::GuildText,
        ChannelKind::Private,
        ChannelKind::GuildVoice,
        ChannelKind::Group,
        ChannelKind::GuildCategory,
        ChannelKind::GuildNews,
        ChannelKind::GuildStore,
        ChannelKind::GuildStageVoice,
        ChannelKind::GuildDirectory,
        ChannelKind::GuildForum,
    ] {
        assert!(!kind.is_thread());
        let channel = Channel { id: CHANNEL, kind, parent_id: None };
        assert_eq!(channel_pair(&channel), Ok((CHANNEL, None)));
        // A parent, such as a category, plays no part.
        let nested = Channel { id: CHANNEL, kind, parent_id: Some(99) };
        assert_eq!(channel_pair(&nested), Ok((CHANNEL, None)));
    }
}

#[test]
fn a_thread_without_a_parent_cannot_be_routed() {
    let orphan = Channel { id: THREAD, kind: ChannelKind::GuildPublicThread, parent_id: None };
    assert_eq!(channel_pair(&orphan), Err(RoutingError::ThreadWithoutParent));
}

#[test]
fn the_permission_bits_are_the_platforms() {
    assert_eq!(MANAGE_GUILD, Permissions::MANAGE_GUILD.bits());
    assert_eq!(SEND_MESSAGES, Permissions::SEND_MESSAGES.bits());
    assert_eq!(MANAGE_MESSAGES, Permissions::MANAGE_MESSAGES.bits());
    assert_eq!(MANAGE_WEBHOOKS, Permissions::MANAGE_WEBHOOKS.bits());
}

#[test]
fn swapping_needs_both_permissions() {
    assert_eq!(privilege(MANAGE_MESSAGES | MANAGE_WEBHOOKS), Privilege::Swap);
    assert_eq!(privilege(Permissions::all().bits()), Privilege::Swap);
    assert_eq!(privilege(MANAGE_MESSAGES | SEND_MESSAGES), Privilege::NoticeOnly);
    assert_eq!(privilege(MANAGE_WEBHOOKS | SEND_MESSAGES), Privilege::NoticeOnly);
    assert_eq!(privilege(SEND_MESSAGES), Privilege::NoticeOnly);
    assert_eq!(privilege(MANAGE_MESSAGES), Privilege::Silent);
    assert_eq!(privilege(MANAGE_WEBHOOKS), Privilege::Silent);
    assert_eq!(privilege(MANAGE_GUILD), Privilege::Silent);
    assert_eq!(privilege(0), Privilege::Silent);
}

#[test]
fn single_permissions_are_read_from_the_bits() {
    assert!(may_manage_guild(MANAGE_GUILD));
    assert!(may_manage_guild(MANAGE_GUILD | SEND_MESSAGES));
    assert!(!may_manage_guild(MANAGE_WEBHOOKS | MANAGE_MESSAGES));
    assert!(may_manage_webhooks(MANAGE_WEBHOOKS));
    assert!(!may_manage_webhooks(MANAGE_GUILD | MANAGE_MESSAGES));
    assert!(contains(0b1110, 0b0110));
    assert!(!contains(0b1010, 0b0110));
    assert!(contains(0, 0));
}

#[test]
fn a_finding_is_acted_on_by_privilege() {
    let finding = || evaluate("spam", &spam_rules(None), MatchMode::Substring).unwrap();
    let message = message("spam");
    assert!(matches!(act_on(&message, finding(), 0, Some(text_channel())), Plan::Silent));
    assert!(matches!(
        act_on(&message, finding(), SEND_MESSAGES, None),
        Plan::Notify { channel: CHANNEL }
    ));
    assert!(matches!(act_on(&message, finding(), FULL, None), Plan::Unroutable));
    match act_on(&message, finding(), FULL, Some(text_channel())) {
        Plan::Swap { delete_in, message, relay_in, thread, text, control } => {
            assert_eq!((delete_in, message, relay_in, thread), (CHANNEL, MESSAGE, CHANNEL, None));
            assert_eq!(text, "||spam||");
            assert_eq!(control, Some(1));
        }
        other => panic!("{other:?}"),
    }
}

#[test]
fn threads_are_what_the_platform_calls_threads() {
    let kinds = [
        (ChannelKind::GuildText, ChannelType::GuildText),
        (ChannelKind::Private, ChannelType::Private),
        (ChannelKind::GuildVoice, ChannelType::GuildVoice),
        (ChannelKind::Group, ChannelType::Group),
        (ChannelKind::GuildCategory, ChannelType::GuildCategory),
        (ChannelKind::GuildNews, ChannelType::GuildNews),
        (ChannelKind::GuildStore, ChannelType::GuildStore),
        (ChannelKind::GuildNewsThread, ChannelType::GuildNewsThread),
        (ChannelKind::GuildPublicThread, ChannelType::GuildPublicThread),
        (ChannelKind::GuildPrivateThread, ChannelType::GuildPrivateThread),
        (ChannelKind::GuildStageVoice, ChannelType::GuildStageVoice),
        (ChannelKind::GuildDirectory, ChannelType::GuildDirectory),
        (ChannelKind::GuildForum, ChannelType::GuildForum),
    ];
    for (kind, platform) in kinds {
        assert_eq!(kind.is_thread(), platform.is_thread());
    }
}

#[test]
fn a_copy_that_would_be_too_long_is_not_swapped() {
    // The censored copy has four characters more than the message.
    let longest = format!("{}spam", "a ".repeat((CONTENT_LIMIT - 8) / 2));
    assert_eq!(longest.chars().count(), CONTENT_LIMIT - 4);
    let swap = plan(&message(&longest), &spam_rules(None), settings(), FULL, Some(text_channel()));
    match swap {
        Plan::Swap { text, .. } => assert_eq!(text.chars().count(), CONTENT_LIMIT),
        other => panic!("{other:?}"),
    }
    let longer = format!("a {longest}");
    let kept = plan(&message(&longer), &spam_rules(None), settings(), FULL, Some(text_channel()));
    assert!(matches!(kept, Plan::TooLong));
}

#[test]
fn the_length_of_a_copy_is_counted_in_characters() {
    let longest = format!("{}spam", "ü ".repeat((CONTENT_LIMIT - 8) / 2));
    assert!(longest.len() > CONTENT_LIMIT);
    let swap = plan(&message(&longest), &spam_rules(None), settings(), FULL, Some(text_channel()));
    assert!(matches!(swap, Plan::Swap { .. }));
}
