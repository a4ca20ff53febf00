//! The number of a rule as the control on a censored copy carries it: in
//! decimal digits, with a sign in front where it is needed.

use crate::text::{chars_of, string_of};
use vstd::prelude::*;

verus! {

/// The value of a decimal digit.
pub open spec fn digit_value(c: char) -> Option<nat> {
    match c {
        '0' => Some(0),
        '1' => Some(1),
        '2' => Some(2),
        '3' => Some(3),
        '4' => Some(4),
        '5' => Some(5),
        '6' => Some(6),
        '7' => Some(7),
        '8' => Some(8),
        '9' => Some(9),
        _ => None,
    }
}

/// The digit of a value below ten.
pub open spec fn digit_char(value: nat) -> char {
    if value == 0 {
        '0'
    } else if value == 1 {
        '1'
    } else if value == 2 {
        '2'
    } else if value == 3 {
        '3'
    } else if value == 4 {
        '4'
    } else if value == 5 {
        '5'
    } else if value == 6 {
        '6'
    } else if value == 7 {
        '7'
    } else if value == 8 {
        '8'
    } else {
        '9'
    }
}

/// The number that decimal digits spell, if all of the characters are digits.
pub open spec fn digits_value(digits: Seq<char>) -> Option<nat>
    decreases digits.len(),
{
    if digits.len() == 0 {
        Some(0)
    } else {
        match (digits_value(digits.drop_last()), digit_value(digits.last())) {
            (Some(high), Some(low)) => Some(high * 10 + low),
            _ => None,
        }
    }
}

/// The decimal digits of a number, without leading zeros.
pub open spec fn digits_of(value: nat) -> Seq<char>
    decreases value,
{
    if value < 10 {
        seq![digit_char(value)]
    } else {
        digits_of(value / 10).push(digit_char(value % 10))
    }
}

/// The text begins with a sign.
pub open spec fn signed(text: Seq<char>) -> bool {
    text.len() > 0 && (text[0] == '-' || text[0] == '+')
}

/// The number of a rule that a text spells: an optional sign and then one or
/// more decimal digits, which give a number that fits. Any other text spells
/// none.
pub open spec fn rule_id_of(text: Seq<char>) -> Option<i32> {
    let digits = if signed(text) {
        text.drop_first()
    } else {
        text
    };
    if digits.len() == 0 {
        None
    } else {
        match digits_value(digits) {
            None => None,
            Some(size) => {
                let value = if text[0] == '-' {
                    -(size as int)
                } else {
                    size as int
                };
                if i32::MIN <= value <= i32::MAX {
                    Some(value as i32)
                } else {
                    None
                }
            },
        }
    }
}

/// The text of a rule's number.
pub open spec fn rule_id_text(id: i32) -> Seq<char> {
    if id < 0 {
        seq!['-'] + digits_of((-id) as nat)
    } else {
        digits_of(id as nat)
    }
}

fn value_of_digit(c: char) -> (value: Option<u64>)
    ensures
        match value {
            Some(v) => digit_value(c) == Some(v as nat) && v < 10,
            None => digit_value(c) is None,
        },
{
    match c {
        '0' => Some(0),
        '1' => Some(1),
        '2' => Some(2),
        '3' => Some(3),
        '4' => Some(4),
        '5' => Some(5),
        '6' => Some(6),
        '7' => Some(7),
        '8' => Some(8),
        '9' => Some(9),
        _ => None,
    }
}

fn char_of_digit(value: u32) -> (c: char)
    requires
        value < 10,
    ensures
        c == digit_char(value as nat),
{
    match value {
        0 => '0',
        1 => '1',
        2 => '2',
        3 => '3',
        4 => '4',
        5 => '5',
        6 => '6',
        7 => '7',
        8 => '8',
        _ => '9',
    }
}

/// Reads the number of a rule from the text that a control carries.
pub fn parse_rule_id(text: &str) -> (id: Option<i32>)
    ensures
        id == rule_id_of(text@),
{
    let chars = chars_of(text);
    if chars.len() == 0 {
        return None;
    }
    let negative = chars[0] == '-';
    let first: usize = if chars[0] == '-' || chars[0] == '+' {
        1
    } else {
        0
    };
    if first == chars.len() {
        return None;
    }
    let ghost digits = chars@.skip(first as int);
    assert(digits =~= if signed(text@) {
        text@.drop_first()
    } else {
        text@
    });
    let mut size: u64 = 0;
    let mut over = false;
    let mut bad = false;
    let mut i: usize = first;
    while i < chars.len()
        invariant
            first <= i <= chars.len(),
            digits == chars@.skip(first as int),
            size <= 0x8000_0000,
            match digits_value(digits.take(i - first)) {
                None => bad,
                Some(v) => !bad && if over {
                    v > 0x8000_0000
                } else {
                    v == size
                },
            },
        decreases chars.len() - i,
    {
        assert(digits.take(i - first + 1).drop_last() =~= digits.take(i - first));
        match value_of_digit(chars[i]) {
            None => {
                bad = true;
            },
            Some(low) => {
                if !bad && !over {
                    let next = size * 10 + low;
                    if next > 0x8000_0000 {
                        over = true;
                    } else {
                        size = next;
                    }
                }
            },
        }
        i += 1;
    }
    assert(digits.take(chars.len() - first) =~= digits);
    if bad || over {
        None
    } else if negative {
        Some((0 - size as i64) as i32)
    } else if size <= 0x7fff_ffff {
        Some(size as i32)
    } else {
        None
    }
}

fn push_digits(value: u32, out: &mut Vec<char>)
    ensures
        final(out)@ == old(out)@ + digits_of(value as nat),
    decreases value,
{
    if value >= 10 {
        push_digits(value / 10, out);
    }
    out.push(char_of_digit(value % 10));
}

/// Writes the number of a rule as the text that a control carries.
pub fn control_id(rule: i32) -> (text: String)
    ensures
        text@ == rule_id_text(rule),
{
    let mut chars: Vec<char> = Vec::new();
    if rule < 0 {
        chars.push('-');
        push_digits((0 - rule as i64) as u32, &mut chars);
    } else {
        push_digits(rule as u32, &mut chars);
    }
    string_of(&chars)
}

proof fn lemma_digits_spell_their_number(value: nat)
    ensures
        digits_value(digits_of(value)) == Some(value),
        digits_of(value).len() > 0,
        digit_value(digits_of(value)[0]) is Some,
    decreases value,
{
    let digits = digits_of(value);
    if value < 10 {
        assert(digits.drop_last() =~= Seq::<char>::empty());
        assert(digits.last() == digit_char(value));
        reveal_with_fuel(digits_value, 2);
    } else {
        lemma_digits_spell_their_number(value / 10);
        assert(digits.drop_last() =~= digits_of(value / 10));
        assert(digits.last() == digit_char(value % 10));
        assert(digits[0] == digits_of(value / 10)[0]);
    }
}

/// The text that is written for a rule's number reads as that number: the
/// control on a copy leads back to the rule it was made for.
pub proof fn control_leads_back_to_its_rule(rule: i32)
    ensures
        rule_id_of(rule_id_text(rule)) == Some(rule),
{
    let text = rule_id_text(rule);
    if rule < 0 {
        let size = (-rule) as nat;
        lemma_digits_spell_their_number(size);
        assert(text[0] == '-');
        assert(text.drop_first() =~= digits_of(size));
    } else {
        lemma_digits_spell_their_number(rule as nat);
    }
}

} // verus!
