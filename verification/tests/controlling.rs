use spoiler_bot::commands::{lift, Lifting, Member};
use spoiler_bot::control::{control_id, parse_rule_id};
use spoiler_bot::permissions::MANAGE_GUILD;
use spoiler_bot::words::Word;

#[test]
fn a_number_is_written_in_decimal() {
    assert_eq!(control_id(0), "0");
    assert_eq!(control_id(7), "7");
    assert_eq!(control_id(10), "10");
    assert_eq!(control_id(42), "42");
    assert_eq!(control_id(1900), "1900");
    assert_eq!(control_id(-1), "-1");
    assert_eq!(control_id(-305), "-305");
    assert_eq!(control_id(i32::MAX), "2147483647");
    assert_eq!(control_id(i32::MIN), "-2147483648");
}

#[test]
fn a_number_is_written_as_the_standard_library_writes_it() {
    for id in [0, 1, 9, 10, 11, 99, 100, 101, 12345, -1, -9, -10, -12345, i32::MAX, i32::MIN] {
        assert_eq!(control_id(id), id.to_string());
    }
}

#[test]
fn a_number_is_read_from_decimal() {
    assert_eq!(parse_rule_id("0"), Some(0));
    assert_eq!(parse_rule_id("42"), Some(42));
    assert_eq!(parse_rule_id("-42"), Some(-42));
    assert_eq!(parse_rule_id("+42"), Some(42));
    assert_eq!(parse_rule_id("007"), Some(7));
    assert_eq!(parse_rule_id("-0"), Some(0));
    assert_eq!(parse_rule_id("2147483647"), Some(i32::MAX));
    assert_eq!(parse_rule_id("-2147483648"), Some(i32::MIN));
}

#[test]
fn a_text_that_spells_no_number_is_refused() {
    for text in [
        "", "-", "+", "--1", "+-1", "1-", "1 ", " 1", "1_000", "1.0", "0x10", "one", "١٢",
        "2147483648", "-2147483649", "99999999999999999999999", "12a", "a12",
    ] {
        assert_eq!(parse_rule_id(text), None, "{text:?}");
    }
}

#[test]
fn a_number_is_read_as_the_standard_library_reads_it() {
    for text in [
        "", "-", "+", "0", "-0", "+0", "00", "42", "-42", "+42", "4 2", "2147483647",
        "2147483648", "-2147483648", "-2147483649", "0000000000000000000001", "١٢", "1e3",
    ] {
        assert_eq!(parse_rule_id(text), text.parse::<i32>().ok(), "{text:?}");
    }
}

#[test]
fn what_is_written_is_read_back() {
    for id in [0, 1, -1, 10, -10, 123456789, i32::MAX, i32::MIN] {
        assert_eq!(parse_rule_id(&control_id(id)), Some(id));
    }
}

#[test]
fn the_control_of_a_rule_lifts_that_rule() {
    let moderator = Some(Member { permissions: Some(MANAGE_GUILD), user: None });
    let own = vec![Word { id: 1234, word: "spam".to_string() }];
    match lift(&moderator, Some(10), &control_id(1234), "||spam||", &own, &Vec::new()) {
        Lifting::Remove { rule, text } => {
            assert_eq!(rule, 1234);
            assert_eq!(text, "spam");
        }
        other => panic!("{other:?}"),
    }
}
