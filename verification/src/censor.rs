//! Hiding forbidden words behind spoiler markup.
//!
//! A folded text is cut into units, either by the Unicode word-boundary rules
//! or by the longest forbidden word found at each place. The units are then
//! read from left to right. A forbidden unit is put between two spoiler
//! delimiters; one that already stands between a closed pair of delimiters is
//! left alone, so that censoring twice gives what censoring once gave.

use crate::censor_laws::{censoring_only_adds_markup, split_matches_spell_the_text};
use crate::segment::{split_word_bounds, string_texts, word_bounds};
use crate::text::{chars_of, lowercase, string_of, without_pipes};
use vstd::prelude::*;

verus! {

/// How a forbidden word is looked for.
#[derive(Clone, Copy, Debug, PartialEq, Eq)]
pub enum MatchMode {
    /// A word is found where it is a whole segment of the text.
    ExactToken,
    /// A word is found wherever its characters occur, also inside a longer
    /// word.
    Substring,
}

/// A text after censoring.
#[derive(Debug)]
pub struct Censored {
    /// The text to show: the folded text with its forbidden words hidden if
    /// anything was hidden, else the text as it came.
    pub text: String,
    /// Whether anything was hidden.
    pub changed: bool,
    /// The words that were put between delimiters, in the order of the text,
    /// each as often as it was hidden.
    pub hits: Vec<String>,
}

/// A censored text as characters.
#[derive(Debug)]
pub struct Rendered {
    /// The censored text.
    pub text: Vec<char>,
    /// Whether anything was hidden.
    pub changed: bool,
    /// The units that were put between delimiters, in order.
    pub hits: Vec<Vec<char>>,
}

/// What the reader of a text remembers between two units.
#[derive(Clone, Copy, Debug)]
pub struct Scan {
    /// An opening delimiter has been read and its closing one has not.
    pub hidden: bool,
    /// The last character was a `|` that belongs to no delimiter yet.
    pub pending: bool,
}

/// The two characters that open or close a spoiler.
pub open spec fn delimiter() -> Seq<char> {
    seq!['|', '|']
}

/// No character of the unit is part of spoiler markup.
pub open spec fn pipe_free(unit: Seq<char>) -> bool {
    forall|i: int| 0 <= i < unit.len() ==> unit[i] != '|'
}

/// The unit is one of the words, and a word that can be hidden: it is not
/// empty and holds no `|`.
pub open spec fn forbidden(unit: Seq<char>, words: Seq<Seq<char>>) -> bool {
    unit.len() > 0 && pipe_free(unit) && words.contains(unit)
}

/// The reader's state before the first character.
pub open spec fn start() -> Scan {
    Scan { hidden: false, pending: false }
}

/// The state inside a spoiler, after a character that is no `|`.
pub open spec fn inside() -> Scan {
    Scan { hidden: true, pending: false }
}

/// The state after one character. Two `|` in a row are a delimiter, which
/// opens a spoiler or closes the open one.
pub open spec fn read_char(st: Scan, c: char) -> Scan {
    if c != '|' {
        Scan { hidden: st.hidden, pending: false }
    } else if st.pending {
        Scan { hidden: !st.hidden, pending: false }
    } else {
        Scan { hidden: st.hidden, pending: true }
    }
}

/// The state after the characters of a unit that is passed through.
pub open spec fn read_chars(st: Scan, unit: Seq<char>) -> Scan
    decreases unit.len(),
{
    if unit.len() == 0 {
        st
    } else {
        read_chars(read_char(st, unit[0]), unit.drop_first())
    }
}

/// The characters hold a delimiter, for a reader who may have a `|` pending.
pub open spec fn closes(text: Seq<char>, pending: bool) -> bool
    decreases text.len(),
{
    if text.len() == 0 {
        false
    } else if text[0] == '|' {
        pending || closes(text.drop_first(), true)
    } else {
        closes(text.drop_first(), false)
    }
}

/// Whether a `|` is pending after the characters, if they hold no delimiter.
pub open spec fn pending_after(text: Seq<char>, pending: bool) -> bool
    decreases text.len(),
{
    if text.len() == 0 {
        pending
    } else {
        pending_after(text.drop_first(), text[0] == '|' && !pending)
    }
}

/// The units hold a delimiter, for a reader who may have a `|` pending.
pub open spec fn closes_in(units: Seq<Seq<char>>, pending: bool) -> bool
    decreases units.len(),
{
    if units.len() == 0 {
        false
    } else {
        closes(units[0], pending) || closes_in(
            units.drop_first(),
            pending_after(units[0], pending),
        )
    }
}

/// A unit that is read in state `st` and followed by `later` stands between a
/// closed pair of delimiters: a spoiler is open, and the text that follows
/// closes it.
pub open spec fn sheltered(st: Scan, later: Seq<Seq<char>>) -> bool {
    st.hidden && closes_in(later, false)
}

/// The unit is put between delimiters: it is forbidden and does not stand
/// between a closed pair of delimiters already.
pub open spec fn wraps(st: Scan, unit: Seq<char>, later: Seq<Seq<char>>, words: Seq<Seq<char>>) -> bool {
    forbidden(unit, words) && !sheltered(st, later)
}

/// The state after a unit that is followed by `later`.
pub open spec fn after_unit(
    st: Scan,
    unit: Seq<char>,
    later: Seq<Seq<char>>,
    words: Seq<Seq<char>>,
) -> Scan {
    if !forbidden(unit, words) {
        read_chars(st, unit)
    } else if sheltered(st, later) {
        inside()
    } else {
        start()
    }
}

/// What is written for a unit that is followed by `later`. A forbidden unit
/// behind a delimiter that nothing closes is in plain sight: the open spoiler
/// is closed before it, and the unit gets delimiters of its own.
pub open spec fn piece(
    st: Scan,
    unit: Seq<char>,
    later: Seq<Seq<char>>,
    words: Seq<Seq<char>>,
) -> Seq<char> {
    if !wraps(st, unit, later, words) {
        unit
    } else if st.hidden {
        delimiter() + delimiter() + unit + delimiter()
    } else {
        delimiter() + unit + delimiter()
    }
}

/// The censored form of the units read from state `st` on.
pub open spec fn render(units: Seq<Seq<char>>, st: Scan, words: Seq<Seq<char>>) -> Seq<char>
    decreases units.len(),
{
    if units.len() == 0 {
        Seq::empty()
    } else {
        piece(st, units[0], units.drop_first(), words) + render(
            units.drop_first(),
            after_unit(st, units[0], units.drop_first(), words),
            words,
        )
    }
}

/// Whether censoring the units from state `st` on puts any unit between
/// delimiters.
pub open spec fn changes(units: Seq<Seq<char>>, st: Scan, words: Seq<Seq<char>>) -> bool
    decreases units.len(),
{
    if units.len() == 0 {
        false
    } else {
        wraps(st, units[0], units.drop_first(), words) || changes(
            units.drop_first(),
            after_unit(st, units[0], units.drop_first(), words),
            words,
        )
    }
}

/// The units that are put between delimiters when the units are censored from
/// state `st` on, in order.
pub open spec fn hit_texts(units: Seq<Seq<char>>, st: Scan, words: Seq<Seq<char>>) -> Seq<
    Seq<char>,
>
    decreases units.len(),
{
    if units.len() == 0 {
        Seq::empty()
    } else {
        let later = hit_texts(
            units.drop_first(),
            after_unit(st, units[0], units.drop_first(), words),
            words,
        );
        if wraps(st, units[0], units.drop_first(), words) {
            seq![units[0]] + later
        } else {
            later
        }
    }
}

/// The texts of a list of character vectors.
pub open spec fn texts(items: Seq<Vec<char>>) -> Seq<Seq<char>> {
    Seq::new(items.len(), |i: int| items[i]@)
}

fn same_chars(a: &Vec<char>, b: &Vec<char>) -> (same: bool)
    ensures
        same == (a@ == b@),
{
    if a.len() != b.len() {
        return false;
    }
    let mut i: usize = 0;
    while i < a.len()
        invariant
            a.len() == b.len(),
            i <= a.len(),
            forall|j: int| 0 <= j < i ==> a@[j] == b@[j],
        decreases a.len() - i,
    {
        if a[i] != b[i] {
            return false;
        }
        i += 1;
    }
    assert(a@ =~= b@);
    true
}

fn is_pipe_free(unit: &Vec<char>) -> (free: bool)
    ensures
        free == pipe_free(unit@),
{
    let mut i: usize = 0;
    while i < unit.len()
        invariant
            i <= unit.len(),
            forall|j: int| 0 <= j < i ==> unit@[j] != '|',
        decreases unit.len() - i,
    {
        if unit[i] == '|' {
            return false;
        }
        i += 1;
    }
    true
}

fn is_listed(unit: &Vec<char>, words: &Vec<Vec<char>>) -> (listed: bool)
    ensures
        listed == texts(words@).contains(unit@),
{
    let mut i: usize = 0;
    while i < words.len()
        invariant
            i <= words.len(),
            forall|j: int| 0 <= j < i ==> texts(words@)[j] != unit@,
        decreases words.len() - i,
    {
        if same_chars(&words[i], unit) {
            assert(texts(words@)[i as int] == unit@);
            return true;
        }
        i += 1;
    }
    false
}

fn is_forbidden(unit: &Vec<char>, words: &Vec<Vec<char>>) -> (hit: bool)
    ensures
        hit == forbidden(unit@, texts(words@)),
{
    unit.len() > 0 && is_pipe_free(unit) && is_listed(unit, words)
}

fn append_chars(out: &mut Vec<char>, unit: &Vec<char>)
    ensures
        final(out)@ == old(out)@ + unit@,
{
    let mut i: usize = 0;
    while i < unit.len()
        invariant
            i <= unit.len(),
            out@ == old(out)@ + unit@.take(i as int),
        decreases unit.len() - i,
    {
        out.push(unit[i]);
        i += 1;
    }
}

fn read_unit(st: Scan, unit: &Vec<char>) -> (next: Scan)
    ensures
        next == read_chars(st, unit@),
{
    let mut now = st;
    let mut i: usize = 0;
    assert(unit@.skip(0) =~= unit@);
    while i < unit.len()
        invariant
            i <= unit.len(),
            read_chars(st, unit@) == read_chars(now, unit@.skip(i as int)),
        decreases unit.len() - i,
    {
        let c = unit[i];
        assert(unit@.skip(i as int).drop_first() =~= unit@.skip(i + 1));
        if c != '|' {
            now = Scan { hidden: now.hidden, pending: false };
        } else if now.pending {
            now = Scan { hidden: !now.hidden, pending: false };
        } else {
            now = Scan { hidden: now.hidden, pending: true };
        }
        i += 1;
    }
    now
}

/// Whether the units from index `from` on hold a delimiter.
fn closes_later(units: &Vec<Vec<char>>, from: usize) -> (closed: bool)
    requires
        from <= units.len(),
    ensures
        closed == closes_in(texts(units@).skip(from as int), false),
{
    let ghost all = texts(units@);
    let mut pending = false;
    let mut i: usize = from;
    while i < units.len()
        invariant
            from <= i <= units.len(),
            all == texts(units@),
            closes_in(all.skip(from as int), false) == closes_in(all.skip(i as int), pending),
        decreases units.len() - i,
    {
        let unit = &units[i];
        let ghost entered = pending;
        assert(all.skip(i as int).drop_first() =~= all.skip(i + 1));
        assert(all.skip(i as int)[0] == unit@);
        let mut j: usize = 0;
        assert(unit@.skip(0) =~= unit@);
        assert(closes_in(all.skip(i as int), entered) == (closes(unit@, entered) || closes_in(
            all.skip(i + 1),
            pending_after(unit@, entered),
        )));
        while j < unit.len()
            invariant
                j <= unit.len(),
                all == texts(units@),
                closes(unit@, entered) ==> closes_in(all.skip(from as int), false),
                closes(unit@, entered) == closes(unit@.skip(j as int), pending),
                pending_after(unit@, entered) == pending_after(unit@.skip(j as int), pending),
            decreases unit.len() - j,
        {
            assert(unit@.skip(j as int).drop_first() =~= unit@.skip(j + 1));
            assert(unit@.skip(j as int)[0] == unit@[j as int]);
            if unit[j] != '|' {
                pending = false;
            } else if pending {
                return true;
            } else {
                pending = true;
            }
            j += 1;
        }
        i += 1;
    }
    false
}

fn copy_chars(unit: &Vec<char>) -> (copy: Vec<char>)
    ensures
        copy@ == unit@,
{
    let mut copy: Vec<char> = Vec::new();
    append_chars(&mut copy, unit);
    copy
}

/// Censors a text that is given as its units. Every forbidden unit that does
/// not stand between a closed pair of delimiters is written between
/// delimiters of its own, and the text counts as changed exactly if there is
/// such a unit.
pub fn censor_units(units: &Vec<Vec<char>>, words: &Vec<Vec<char>>) -> (out: Rendered)
    ensures
        out.text@ == render(texts(units@), start(), texts(words@)),
        out.changed == changes(texts(units@), start(), texts(words@)),
        texts(out.hits@) == hit_texts(texts(units@), start(), texts(words@)),
        out.changed == (out.hits@.len() > 0),
{
    let ghost all = texts(units@);
    let ghost list = texts(words@);
    let mut text: Vec<char> = Vec::new();
    let mut hits: Vec<Vec<char>> = Vec::new();
    let mut st = Scan { hidden: false, pending: false };
    let mut i: usize = 0;
    assert(all.skip(0) =~= all);
    while i < units.len()
        invariant
            i <= units.len(),
            all == texts(units@),
            list == texts(words@),
            render(all, start(), list) == text@ + render(all.skip(i as int), st, list),
            changes(all, start(), list) == (hits@.len() > 0 || changes(
                all.skip(i as int),
                st,
                list,
            )),
            hit_texts(all, start(), list) == texts(hits@) + hit_texts(
                all.skip(i as int),
                st,
                list,
            ),
        decreases units.len() - i,
    {
        let unit = &units[i];
        let ghost later = all.skip(i + 1);
        let ghost before = text@;
        let ghost found = texts(hits@);
        let ghost prev = st;
        assert(all.skip(i as int).drop_first() =~= later);
        assert(all.skip(i as int)[0] == unit@);
        if !is_forbidden(unit, words) {
            append_chars(&mut text, unit);
            st = read_unit(st, unit);
        } else if st.hidden && closes_later(units, i + 1) {
            append_chars(&mut text, unit);
            st = Scan { hidden: true, pending: false };
        } else {
            if st.hidden {
                text.push('|');
                text.push('|');
            }
            text.push('|');
            text.push('|');
            append_chars(&mut text, unit);
            text.push('|');
            text.push('|');
            hits.push(copy_chars(unit));
            st = Scan { hidden: false, pending: false };
            assert(text@ =~= before + piece(prev, unit@, later, list));
            assert(texts(hits@) =~= found + seq![unit@]);
        }
        assert(text@ == before + piece(prev, unit@, later, list));
        assert(st == after_unit(prev, unit@, later, list));
        assert(text@ + render(later, st, list) =~= before + (piece(prev, unit@, later, list)
            + render(later, st, list)));
        assert(texts(hits@) + hit_texts(later, st, list) =~= found + (if wraps(
            prev,
            unit@,
            later,
            list,
        ) {
            seq![unit@] + hit_texts(later, st, list)
        } else {
            hit_texts(later, st, list)
        }));
        i += 1;
    }
    let changed = hits.len() > 0;
    Rendered { text, changed, hits }
}

/// The length of the longest forbidden word among the first `limit`
/// prefixes of the text, or 0 if none of them is forbidden.
pub open spec fn longest_upto(text: Seq<char>, words: Seq<Seq<char>>, limit: nat) -> nat
    decreases limit,
{
    if limit == 0 {
        0
    } else if forbidden(text.take(limit as int), words) {
        limit
    } else {
        longest_upto(text, words, (limit - 1) as nat)
    }
}

/// The length of the longest forbidden word that the text begins with, or 0.
pub open spec fn longest_match(text: Seq<char>, words: Seq<Seq<char>>) -> nat {
    longest_upto(text, words, text.len())
}

/// The length of the first unit of a text: the longest forbidden word it
/// begins with, or one character.
pub open spec fn unit_len(text: Seq<char>, words: Seq<Seq<char>>) -> int {
    let longest = longest_match(text, words);
    if 0 < longest <= text.len() {
        longest as int
    } else {
        1
    }
}

/// The units of a text in substring matching: from left to right, the longest
/// forbidden word found at a place, or the single character there.
pub open spec fn split_matches(text: Seq<char>, words: Seq<Seq<char>>) -> Seq<Seq<char>>
    decreases text.len(),
{
    if text.len() == 0 {
        Seq::empty()
    } else {
        let n = unit_len(text, words);
        seq![text.take(n)] + split_matches(text.skip(n), words)
    }
}

pub(crate) proof fn lemma_longest_upto(text: Seq<char>, words: Seq<Seq<char>>, limit: nat, best: nat)
    requires
        best <= limit <= text.len(),
        best == 0 || forbidden(text.take(best as int), words),
        forall|m: int| best < m <= limit ==> !forbidden(#[trigger] text.take(m), words),
    ensures
        longest_upto(text, words, limit) == best,
    decreases limit,
{
    if limit > best {
        lemma_longest_upto(text, words, (limit - 1) as nat, best);
    }
}

fn starts_with_at(text: &Vec<char>, at: usize, word: &Vec<char>) -> (hit: bool)
    requires
        at <= text.len(),
    ensures
        hit == word@.is_prefix_of(text@.skip(at as int)),
{
    if word.len() > text.len() - at {
        return false;
    }
    let ghost rest = text@.skip(at as int);
    let mut i: usize = 0;
    while i < word.len()
        invariant
            at <= text.len(),
            word.len() <= text.len() - at,
            rest == text@.skip(at as int),
            i <= word.len(),
            forall|j: int| 0 <= j < i ==> word@[j] == rest[j],
        decreases word.len() - i,
    {
        if word[i] != text[at + i] {
            return false;
        }
        i += 1;
    }
    true
}

fn longest_match_at(text: &Vec<char>, at: usize, words: &Vec<Vec<char>>) -> (best: usize)
    requires
        at <= text.len(),
    ensures
        best == longest_match(text@.skip(at as int), texts(words@)),
        best <= text.len() - at,
{
    let ghost rest = text@.skip(at as int);
    let ghost list = texts(words@);
    let mut best: usize = 0;
    let mut i: usize = 0;
    while i < words.len()
        invariant
            at <= text.len(),
            rest == text@.skip(at as int),
            list == texts(words@),
            i <= words.len(),
            best <= rest.len(),
            best == 0 || forbidden(rest.take(best as int), list),
            forall|j: int|
                0 <= j < i && (#[trigger] list[j]).len() > 0 && pipe_free(list[j])
                    && list[j].is_prefix_of(rest) ==> list[j].len() <= best,
        decreases words.len() - i,
    {
        let word = &words[i];
        assert(list[i as int] == word@);
        if word.len() > best && is_pipe_free(word) && starts_with_at(text, at, word) {
            best = word.len();
        }
        i += 1;
    }
    proof {
        assert forall|m: int| best < m <= rest.len() implies !forbidden(
            #[trigger] rest.take(m),
            list,
        ) by {
            if forbidden(rest.take(m), list) {
                let j = choose|j: int| 0 <= j < list.len() && list[j] == rest.take(m);
                assert(list[j].is_prefix_of(rest));
            }
        }
        lemma_longest_upto(rest, list, rest.len(), best as nat);
    }
    best
}

fn copy_range(text: &Vec<char>, from: usize, to: usize) -> (part: Vec<char>)
    requires
        from <= to <= text.len(),
    ensures
        part@ == text@.subrange(from as int, to as int),
{
    let mut part: Vec<char> = Vec::new();
    let mut i: usize = from;
    while i < to
        invariant
            from <= i <= to <= text.len(),
            part@ == text@.subrange(from as int, i as int),
        decreases to - i,
    {
        part.push(text[i]);
        i += 1;
    }
    part
}

/// Cuts a text into its units for substring matching.
pub fn split_at_matches(text: &Vec<char>, words: &Vec<Vec<char>>) -> (units: Vec<Vec<char>>)
    ensures
        texts(units@) == split_matches(text@, texts(words@)),
{
    let ghost list = texts(words@);
    let mut units: Vec<Vec<char>> = Vec::new();
    let mut at: usize = 0;
    assert(text@.skip(0) =~= text@);
    while at < text.len()
        invariant
            at <= text.len(),
            list == texts(words@),
            split_matches(text@, list) == texts(units@) + split_matches(
                text@.skip(at as int),
                list,
            ),
        decreases text.len() - at,
    {
        let longest = longest_match_at(text, at, words);
        let n: usize = if longest > 0 {
            longest
        } else {
            1
        };
        let unit = copy_range(text, at, at + n);
        proof {
            let rest = text@.skip(at as int);
            assert(unit@ =~= rest.take(n as int));
            assert(rest.skip(n as int) =~= text@.skip(at + n));
        }
        units.push(unit);
        at += n;
    }
    units
}

fn chars_of_each(strings: &Vec<String>) -> (items: Vec<Vec<char>>)
    ensures
        texts(items@) == string_texts(strings@),
{
    let mut items: Vec<Vec<char>> = Vec::new();
    let mut i: usize = 0;
    while i < strings.len()
        invariant
            i <= strings.len(),
            items.len() == i,
            forall|j: int| 0 <= j < i ==> items@[j]@ == strings@[j]@,
        decreases strings.len() - i,
    {
        items.push(chars_of(strings[i].as_str()));
        i += 1;
    }
    items
}

/// The units of a folded text under a way of matching.
pub open spec fn units_of(folded: Seq<char>, words: Seq<Seq<char>>, mode: MatchMode) -> Seq<
    Seq<char>,
> {
    match mode {
        MatchMode::ExactToken => word_bounds(folded),
        MatchMode::Substring => split_matches(folded, words),
    }
}

/// Whether censoring a text hides anything.
pub open spec fn is_censored(text: Seq<char>, words: Seq<Seq<char>>, mode: MatchMode) -> bool {
    changes(units_of(lowercase(text), words, mode), start(), words)
}

/// The text that censoring gives: the folded text with its forbidden units
/// hidden, or, where nothing is hidden, the text itself.
pub open spec fn censored(text: Seq<char>, words: Seq<Seq<char>>, mode: MatchMode) -> Seq<char> {
    if is_censored(text, words, mode) {
        render(units_of(lowercase(text), words, mode), start(), words)
    } else {
        text
    }
}

/// The words that censoring a text puts between delimiters, in the order of
/// the text.
pub open spec fn censored_hits(text: Seq<char>, words: Seq<Seq<char>>, mode: MatchMode) -> Seq<
    Seq<char>,
> {
    hit_texts(units_of(lowercase(text), words, mode), start(), words)
}

fn strings_of_each(items: &Vec<Vec<char>>) -> (strings: Vec<String>)
    ensures
        string_texts(strings@) == texts(items@),
        strings@.len() == items@.len(),
{
    let mut strings: Vec<String> = Vec::new();
    let mut i: usize = 0;
    while i < items.len()
        invariant
            i <= items.len(),
            strings.len() == i,
            forall|j: int| 0 <= j < i ==> strings@[j]@ == items@[j]@,
        decreases items.len() - i,
    {
        strings.push(string_of(&items[i]));
        i += 1;
    }
    strings
}

/// Censors a text that is already folded to lower case.
pub fn censor_folded(folded: &str, words: &Vec<String>, mode: MatchMode) -> (out: Censored)
    ensures
        out.text@ == render(
            units_of(folded@, string_texts(words@), mode),
            start(),
            string_texts(words@),
        ),
        out.changed == changes(
            units_of(folded@, string_texts(words@), mode),
            start(),
            string_texts(words@),
        ),
        string_texts(out.hits@) == hit_texts(
            units_of(folded@, string_texts(words@), mode),
            start(),
            string_texts(words@),
        ),
        out.changed == (out.hits@.len() > 0),
        without_pipes(out.text@) == without_pipes(folded@),
{
    let list = chars_of_each(words);
    let units = match mode {
        MatchMode::ExactToken => {
            let segments = split_word_bounds(folded);
            chars_of_each(&segments)
        },
        MatchMode::Substring => {
            let chars = chars_of(folded);
            split_at_matches(&chars, &list)
        },
    };
    proof {
        split_matches_spell_the_text(folded@, string_texts(words@));
        censoring_only_adds_markup(texts(units@), start(), string_texts(words@));
    }
    let done = censor_units(&units, &list);
    Censored { text: string_of(&done.text), changed: done.changed, hits: strings_of_each(&done.hits) }
}

/// Hides the forbidden words of a text behind spoiler markup.
///
/// The text is folded to lower case and cut into units. Each forbidden unit
/// is put between `||` and `||`, unless it stands between a closed pair of
/// delimiters already; where a delimiter is open that nothing closes, it is
/// closed first. Nothing else is added or taken away, and the text counts as
/// changed exactly if a unit was put between delimiters. If none was, the
/// text comes back as it was given.
pub fn censor(text: &str, words: &Vec<String>, mode: MatchMode) -> (out: Censored)
    ensures
        out.changed == is_censored(text@, string_texts(words@), mode),
        out.text@ == censored(text@, string_texts(words@), mode),
        string_texts(out.hits@) == censored_hits(text@, string_texts(words@), mode),
        out.changed == (out.hits@.len() > 0),
        out.changed ==> without_pipes(out.text@) == without_pipes(lowercase(text@)),
{
    let folded = text.to_lowercase();
    let done = censor_folded(folded.as_str(), words, mode);
    if done.changed {
        done
    } else {
        Censored { text: text.to_owned(), changed: false, hits: done.hits }
    }
}

} // verus!
