//! Word rules, and the words that are in effect for a guild.
//!
//! A guild's own words always count. A default word counts unless the guild
//! has opted out of its category or has exempted that rule. A text that
//! several rules name counts once.

use crate::segment::string_texts;
use vstd::prelude::*;

verus! {

/// A group of default words that a guild can opt out of as a whole.
#[derive(Clone, Copy, Debug, PartialEq, Eq, Structural)]
pub enum Category {
    Swear,
    Trigger,
}

/// A forbidden word as the rule store holds it.
#[derive(Debug)]
pub struct Word {
    /// The rule's identifier in the store.
    pub id: i32,
    /// The word, folded to lower case.
    pub word: String,
}

/// A word that is forbidden in every guild that has not opted out of its
/// category.
#[derive(Debug)]
pub struct DefaultWord {
    /// The rule's identifier in the store.
    pub id: i32,
    /// The word, folded to lower case.
    pub word: String,
    /// The category the word belongs to.
    pub category: Category,
}

/// A rule as a plain value: its identifier and its text.
pub type Rule = (i32, Seq<char>);

/// The rules of a list of words.
pub open spec fn rules_of(words: Seq<Word>) -> Seq<Rule> {
    Seq::new(words.len(), |i: int| (words[i].id, words[i].word@))
}

/// The texts of a list of rules.
pub open spec fn rule_texts(rules: Seq<Rule>) -> Seq<Seq<char>> {
    Seq::new(rules.len(), |i: int| rules[i].1)
}

/// Some rule of the list has the text.
pub open spec fn names(rules: Seq<Rule>, text: Seq<char>) -> bool {
    exists|i: int| 0 <= i < rules.len() && (#[trigger] rules[i]).1 == text
}

/// No two rules of the list have the same text.
pub open spec fn distinct_texts(rules: Seq<Rule>) -> bool {
    forall|i: int, j: int|
        0 <= i < j < rules.len() ==> (#[trigger] rules[i]).1 != (#[trigger] rules[j]).1
}

/// Some default word of the category has the text.
pub open spec fn category_names(
    defaults: Seq<DefaultWord>,
    category: Category,
    text: Seq<char>,
) -> bool {
    exists|i: int|
        0 <= i < defaults.len() && (#[trigger] defaults[i]).category == category
            && defaults[i].word@ == text
}

/// No two default words of one category have the same text.
pub open spec fn distinct_in_categories(defaults: Seq<DefaultWord>) -> bool {
    forall|i: int, j: int|
        0 <= i < j < defaults.len() && (#[trigger] defaults[i]).category == (
        #[trigger] defaults[j]).category ==> defaults[i].word@ != defaults[j].word@
}

/// The guild has not opted out of the category of a default word.
pub open spec fn admitted(word: DefaultWord, opt_out: Option<Category>) -> bool {
    opt_out != Some(word.category)
}

/// A default word counts for a guild: the guild has not opted out of its
/// category, and has not exempted the rule.
pub open spec fn counts(word: DefaultWord, opt_out: Option<Category>, exempt: Seq<i32>) -> bool {
    admitted(word, opt_out) && !exempt.contains(word.id)
}

/// The rules of the default words that count for a guild, in order.
pub open spec fn counted_rules(
    defaults: Seq<DefaultWord>,
    opt_out: Option<Category>,
    exempt: Seq<i32>,
) -> Seq<Rule>
    decreases defaults.len(),
{
    if defaults.len() == 0 {
        Seq::empty()
    } else {
        let earlier = counted_rules(defaults.drop_last(), opt_out, exempt);
        if counts(defaults.last(), opt_out, exempt) {
            earlier.push((defaults.last().id, defaults.last().word@))
        } else {
            earlier
        }
    }
}

/// The rules without those whose text an earlier rule has.
pub open spec fn first_of_each_text(rules: Seq<Rule>) -> Seq<Rule>
    decreases rules.len(),
{
    if rules.len() == 0 {
        Seq::empty()
    } else {
        let earlier = first_of_each_text(rules.drop_last());
        if names(earlier, rules.last().1) {
            earlier
        } else {
            earlier.push(rules.last())
        }
    }
}

/// The rules in effect for a guild: its own words, then the default words it
/// has neither opted out of nor exempted, each text once, under the first
/// rule that has it.
pub open spec fn effective_rules(
    customs: Seq<Word>,
    defaults: Seq<DefaultWord>,
    opt_out: Option<Category>,
    exempt: Seq<i32>,
) -> Seq<Rule> {
    first_of_each_text(rules_of(customs) + counted_rules(defaults, opt_out, exempt))
}

/// Whether a list of words holds a text.
pub fn has_word(words: &Vec<Word>, text: &String) -> (found: bool)
    ensures
        found == names(rules_of(words@), text@),
{
    let mut i: usize = 0;
    while i < words.len()
        invariant
            i <= words.len(),
            forall|j: int| 0 <= j < i ==> (#[trigger] rules_of(words@)[j]).1 != text@,
        decreases words.len() - i,
    {
        if words[i].word == *text {
            assert(rules_of(words@)[i as int].1 == text@);
            return true;
        }
        i += 1;
    }
    false
}

/// Whether a category of the default words holds a text.
pub fn has_default(defaults: &Vec<DefaultWord>, category: Category, text: &String) -> (found: bool)
    ensures
        found == category_names(defaults@, category, text@),
{
    let mut i: usize = 0;
    while i < defaults.len()
        invariant
            i <= defaults.len(),
            forall|j: int|
                0 <= j < i ==> !((#[trigger] defaults@[j]).category == category
                    && defaults@[j].word@ == text@),
        decreases defaults.len() - i,
    {
        if defaults[i].category == category && defaults[i].word == *text {
            return true;
        }
        i += 1;
    }
    false
}

/// Adds a rule to the result unless its text is there already.
fn keep(result: &mut Vec<Word>, id: i32, word: &String)
    ensures
        rules_of(final(result)@) == if names(rules_of(old(result)@), word@) {
            rules_of(old(result)@)
        } else {
            rules_of(old(result)@).push((id, word@))
        },
{
    if !has_word(result, word) {
        result.push(Word { id, word: word.clone() });
    }
}

/// Whether a list of rule numbers holds a number.
pub fn has_id(ids: &Vec<i32>, id: i32) -> (found: bool)
    ensures
        found == ids@.contains(id),
{
    let mut i: usize = 0;
    while i < ids.len()
        invariant
            i <= ids.len(),
            forall|j: int| 0 <= j < i ==> ids@[j] != id,
        decreases ids.len() - i,
    {
        if ids[i] == id {
            assert(ids@[i as int] == id);
            return true;
        }
        i += 1;
    }
    false
}

/// The words in effect for a guild, from its own words, the default words,
/// its opt-out and the default rules it has exempted. What one guild exempts
/// plays no part for another.
pub fn resolve(
    customs: &Vec<Word>,
    defaults: &Vec<DefaultWord>,
    opt_out: Option<Category>,
    exempt: &Vec<i32>,
) -> (words: Vec<Word>)
    ensures
        rules_of(words@) == effective_rules(customs@, defaults@, opt_out, exempt@),
{
    let mut words: Vec<Word> = Vec::new();
    let ghost own = rules_of(customs@);
    let mut i: usize = 0;
    assert(own.take(0) =~= Seq::<Rule>::empty());
    assert(rules_of(words@) =~= Seq::<Rule>::empty());
    while i < customs.len()
        invariant
            i <= customs.len(),
            own == rules_of(customs@),
            rules_of(words@) == first_of_each_text(own.take(i as int)),
        decreases customs.len() - i,
    {
        assert(own.take(i + 1).drop_last() =~= own.take(i as int));
        keep(&mut words, customs[i].id, &customs[i].word);
        i += 1;
    }
    assert(own.take(customs.len() as int) =~= own);
    let mut j: usize = 0;
    assert(defaults@.take(0) =~= Seq::<DefaultWord>::empty());
    assert(own + counted_rules(defaults@.take(0), opt_out, exempt@) =~= own);
    while j < defaults.len()
        invariant
            j <= defaults.len(),
            own == rules_of(customs@),
            rules_of(words@) == first_of_each_text(
                own + counted_rules(defaults@.take(j as int), opt_out, exempt@),
            ),
        decreases defaults.len() - j,
    {
        let ghost earlier = counted_rules(defaults@.take(j as int), opt_out, exempt@);
        assert(defaults@.take(j + 1).drop_last() =~= defaults@.take(j as int));
        assert(defaults@.take(j + 1).last() == defaults@[j as int]);
        let admitted = match opt_out {
            Some(category) => category != defaults[j].category,
            None => true,
        };
        if admitted && !has_id(exempt, defaults[j].id) {
            proof {
                let rule = (defaults@[j as int].id, defaults@[j as int].word@);
                assert((own + earlier.push(rule)).drop_last() =~= own + earlier);
            }
            keep(&mut words, defaults[j].id, &defaults[j].word);
        }
        j += 1;
    }
    assert(defaults@.take(defaults.len() as int) =~= defaults@);
    words
}

/// The texts of the words, for the matcher.
pub fn word_texts(words: &Vec<Word>) -> (texts: Vec<String>)
    ensures
        string_texts(texts@) == rule_texts(rules_of(words@)),
{
    let mut texts: Vec<String> = Vec::new();
    let mut i: usize = 0;
    while i < words.len()
        invariant
            i <= words.len(),
            texts.len() == i,
            forall|j: int| 0 <= j < i ==> texts@[j]@ == words@[j].word@,
        decreases words.len() - i,
    {
        texts.push(words[i].word.clone());
        i += 1;
    }
    texts
}

/// The opt-out of a guild after it opts out of one more category. A guild
/// that has opted out of one category and now opts out of the other has no
/// opt-out left: its record is removed, and all default words count again.
pub fn opt_out_of(current: Option<Category>, category: Category) -> (next: Option<Category>)
    ensures
        next == match current {
            None => Some(category),
            Some(held) => if held == category {
                Some(held)
            } else {
                None
            },
        },
{
    match current {
        None => Some(category),
        Some(held) => if held == category {
            Some(held)
        } else {
            None
        },
    }
}

proof fn lemma_first_texts_differ(rules: Seq<Rule>, i: int, j: int)
    requires
        0 <= i < j < first_of_each_text(rules).len(),
    ensures
        first_of_each_text(rules)[i].1 != first_of_each_text(rules)[j].1,
    decreases rules.len(),
{
    let earlier = first_of_each_text(rules.drop_last());
    if names(earlier, rules.last().1) || j < earlier.len() {
        lemma_first_texts_differ(rules.drop_last(), i, j);
    } else {
        assert(earlier[i].1 != rules.last().1);
    }
}

/// No two of the rules in effect have the same text, whatever the store
/// holds.
pub proof fn effective_texts_are_distinct(rules: Seq<Rule>)
    ensures
        distinct_texts(first_of_each_text(rules)),
{
    let kept = first_of_each_text(rules);
    assert forall|i: int, j: int| 0 <= i < j < kept.len() implies (#[trigger] kept[i]).1 != (
    #[trigger] kept[j]).1 by {
        lemma_first_texts_differ(rules, i, j);
    }
}

/// A list of rules with distinct texts stays one when a rule is added whose
/// text none of them has.
pub proof fn new_text_keeps_texts_distinct(rules: Seq<Rule>, rule: Rule)
    requires
        distinct_texts(rules),
        !names(rules, rule.1),
    ensures
        distinct_texts(rules.push(rule)),
{
    let longer = rules.push(rule);
    assert forall|i: int, j: int| 0 <= i < j < longer.len() implies (#[trigger] longer[i]).1 != (
    #[trigger] longer[j]).1 by {
        if j < rules.len() {
            assert(rules[i].1 != rules[j].1);
        } else {
            assert(rules[i].1 != rule.1);
        }
    }
}

/// Default words with distinct texts in each category stay so when a word is
/// added whose text its category does not hold.
pub proof fn new_default_keeps_categories_distinct(defaults: Seq<DefaultWord>, word: DefaultWord)
    requires
        distinct_in_categories(defaults),
        !category_names(defaults, word.category, word.word@),
    ensures
        distinct_in_categories(defaults.push(word)),
{
    let longer = defaults.push(word);
    assert forall|i: int, j: int|
        0 <= i < j < longer.len() && (#[trigger] longer[i]).category == (
        #[trigger] longer[j]).category implies longer[i].word@ != longer[j].word@ by {
        if j < defaults.len() {
            assert(defaults[i].category == defaults[j].category);
        } else {
            assert(defaults[i].category == word.category);
        }
    }
}

/// A text is in effect exactly if some rule of the list has it.
pub proof fn effective_texts_are_all_texts(rules: Seq<Rule>, text: Seq<char>)
    ensures
        names(first_of_each_text(rules), text) == names(rules, text),
    decreases rules.len(),
{
    if rules.len() > 0 {
        let shorter = rules.drop_last();
        let earlier = first_of_each_text(shorter);
        let all = first_of_each_text(rules);
        effective_texts_are_all_texts(shorter, text);
        if names(all, text) {
            let k = choose|k: int| 0 <= k < all.len() && (#[trigger] all[k]).1 == text;
            if k < earlier.len() {
                assert(earlier[k].1 == text);
                let i = choose|i: int| 0 <= i < shorter.len() && (#[trigger] shorter[i]).1 == text;
                assert(rules[i].1 == text);
            } else {
                assert(rules[rules.len() - 1].1 == text);
            }
        }
        if names(rules, text) {
            let i = choose|i: int| 0 <= i < rules.len() && (#[trigger] rules[i]).1 == text;
            if i < shorter.len() {
                assert(shorter[i].1 == text);
                let k = choose|k: int| 0 <= k < earlier.len() && (#[trigger] earlier[k]).1 == text;
                assert(all[k].1 == text);
            } else if names(earlier, text) {
                let k = choose|k: int| 0 <= k < earlier.len() && (#[trigger] earlier[k]).1 == text;
                assert(all[k].1 == text);
            } else {
                assert(all[all.len() - 1].1 == text);
            }
        }
    }
}

/// A text is the text of a counted default rule exactly if a default word
/// that counts for the guild has it.
pub proof fn counted_texts(
    defaults: Seq<DefaultWord>,
    opt_out: Option<Category>,
    exempt: Seq<i32>,
    text: Seq<char>,
)
    ensures
        names(counted_rules(defaults, opt_out, exempt), text) == (exists|j: int|
            0 <= j < defaults.len() && counts(#[trigger] defaults[j], opt_out, exempt)
                && defaults[j].word@ == text),
    decreases defaults.len(),
{
    if defaults.len() > 0 {
        let shorter = defaults.drop_last();
        let earlier = counted_rules(shorter, opt_out, exempt);
        let all = counted_rules(defaults, opt_out, exempt);
        counted_texts(shorter, opt_out, exempt, text);
        if names(all, text) {
            let k = choose|k: int| 0 <= k < all.len() && (#[trigger] all[k]).1 == text;
            if k < earlier.len() {
                assert(earlier[k].1 == text);
                let j = choose|j: int|
                    0 <= j < shorter.len() && counts(#[trigger] shorter[j], opt_out, exempt)
                        && shorter[j].word@ == text;
                assert(counts(defaults[j], opt_out, exempt) && defaults[j].word@ == text);
            } else {
                assert(counts(defaults[defaults.len() - 1], opt_out, exempt));
            }
        }
        if exists|j: int|
            0 <= j < defaults.len() && counts(#[trigger] defaults[j], opt_out, exempt)
                && defaults[j].word@ == text {
            let j = choose|j: int|
                0 <= j < defaults.len() && counts(#[trigger] defaults[j], opt_out, exempt)
                    && defaults[j].word@ == text;
            if j < shorter.len() {
                assert(counts(shorter[j], opt_out, exempt) && shorter[j].word@ == text);
                let k = choose|k: int| 0 <= k < earlier.len() && (#[trigger] earlier[k]).1 == text;
                assert(all[k].1 == text);
            } else {
                assert(all[all.len() - 1].1 == text);
            }
        }
    }
}

/// No default rule that a guild has exempted counts for the guild.
pub proof fn exempted_rules_do_not_count(
    defaults: Seq<DefaultWord>,
    opt_out: Option<Category>,
    exempt: Seq<i32>,
    k: int,
)
    requires
        0 <= k < counted_rules(defaults, opt_out, exempt).len(),
    ensures
        !exempt.contains(counted_rules(defaults, opt_out, exempt)[k].0),
    decreases defaults.len(),
{
    let earlier = counted_rules(defaults.drop_last(), opt_out, exempt);
    if k < earlier.len() {
        exempted_rules_do_not_count(defaults.drop_last(), opt_out, exempt, k);
    }
}

/// Once a guild is exempted from a default rule, the rule no longer counts
/// for the guild.
pub proof fn exempted_rule_is_gone(
    defaults: Seq<DefaultWord>,
    opt_out: Option<Category>,
    exempt: Seq<i32>,
    id: i32,
    k: int,
)
    requires
        0 <= k < counted_rules(defaults, opt_out, exempt.push(id)).len(),
    ensures
        counted_rules(defaults, opt_out, exempt.push(id))[k].0 != id,
{
    assert(exempt.push(id)[exempt.len() as int] == id);
    exempted_rules_do_not_count(defaults, opt_out, exempt.push(id), k);
}

/// A text is in effect for a guild exactly if it is one of the guild's own
/// words or a default word that the guild has neither opted out of nor
/// exempted.
pub proof fn effective_means_own_or_counted(
    customs: Seq<Word>,
    defaults: Seq<DefaultWord>,
    opt_out: Option<Category>,
    exempt: Seq<i32>,
    text: Seq<char>,
)
    ensures
        names(effective_rules(customs, defaults, opt_out, exempt), text) == (names(
            rules_of(customs),
            text,
        ) || exists|j: int|
            0 <= j < defaults.len() && counts(#[trigger] defaults[j], opt_out, exempt)
                && defaults[j].word@ == text),
{
    let own = rules_of(customs);
    let given = counted_rules(defaults, opt_out, exempt);
    let all = own + given;
    effective_texts_are_all_texts(all, text);
    counted_texts(defaults, opt_out, exempt, text);
    if names(all, text) {
        let k = choose|k: int| 0 <= k < all.len() && (#[trigger] all[k]).1 == text;
        if k < own.len() {
            assert(own[k].1 == text);
        } else {
            assert(given[k - own.len()].1 == text);
        }
    }
    if names(own, text) {
        let k = choose|k: int| 0 <= k < own.len() && (#[trigger] own[k]).1 == text;
        assert(all[k].1 == text);
    }
    if names(given, text) {
        let k = choose|k: int| 0 <= k < given.len() && (#[trigger] given[k]).1 == text;
        assert(all[own.len() + k].1 == text);
    }
}

/// A text that only default words of one category have is in effect for a
/// guild that has opted out of that category exactly if it is one of the
/// guild's own words.
pub proof fn opted_out_word_counts_only_if_own(
    customs: Seq<Word>,
    defaults: Seq<DefaultWord>,
    category: Category,
    exempt: Seq<i32>,
    text: Seq<char>,
)
    requires
        forall|j: int|
            0 <= j < defaults.len() && (#[trigger] defaults[j]).word@ == text
                ==> defaults[j].category == category,
    ensures
        names(effective_rules(customs, defaults, Some(category), exempt), text) == names(
            rules_of(customs),
            text,
        ),
{
    effective_means_own_or_counted(customs, defaults, Some(category), exempt, text);
}

/// A text whose default rules a guild has all exempted is in effect for that
/// guild exactly if it is one of the guild's own words.
pub proof fn exempted_word_counts_only_if_own(
    customs: Seq<Word>,
    defaults: Seq<DefaultWord>,
    opt_out: Option<Category>,
    exempt: Seq<i32>,
    text: Seq<char>,
)
    requires
        forall|j: int|
            0 <= j < defaults.len() && (#[trigger] defaults[j]).word@ == text ==> exempt.contains(
                defaults[j].id,
            ),
    ensures
        names(effective_rules(customs, defaults, opt_out, exempt), text) == names(
            rules_of(customs),
            text,
        ),
{
    effective_means_own_or_counted(customs, defaults, opt_out, exempt, text);
}

/// What one guild exempts stays in effect for every guild that has neither
/// exempted it nor opted out of its category.
pub proof fn exemption_is_for_one_guild(
    customs: Seq<Word>,
    defaults: Seq<DefaultWord>,
    opt_out: Option<Category>,
    exempt: Seq<i32>,
    j: int,
)
    requires
        0 <= j < defaults.len(),
        admitted(defaults[j], opt_out),
        !exempt.contains(defaults[j].id),
    ensures
        names(effective_rules(customs, defaults, opt_out, exempt), defaults[j].word@),
{
    effective_means_own_or_counted(customs, defaults, opt_out, exempt, defaults[j].word@);
    assert(counts(defaults[j], opt_out, exempt));
}

} // verus!
