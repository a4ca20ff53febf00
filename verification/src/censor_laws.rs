//! What holds of censoring, whatever the text and the words.

use crate::censor::{
    after_unit, censored, changes, closes, closes_in, delimiter, forbidden, hit_texts, inside,
    is_censored, lemma_longest_upto, longest_upto, pending_after, piece, pipe_free, read_char,
    read_chars, render, sheltered, split_matches, start, unit_len, units_of, wraps, MatchMode,
    Scan,
};
use crate::segment::word_bounds;
use crate::text::{lowercase, without_pipes};
use vstd::prelude::*;

verus! {

/// The part occurs in the text, as a run of neighbouring characters.
pub open spec fn occurs_in(part: Seq<char>, text: Seq<char>) -> bool {
    exists|at: int| 0 <= at <= text.len() && #[trigger] part.is_prefix_of(text.skip(at))
}

/// The reader's state after the first `count` units.
pub open spec fn state_after(
    units: Seq<Seq<char>>,
    count: nat,
    st: Scan,
    words: Seq<Seq<char>>,
) -> Scan
    decreases count,
{
    if count == 0 || units.len() == 0 {
        st
    } else {
        state_after(
            units.drop_first(),
            (count - 1) as nat,
            after_unit(st, units[0], units.drop_first(), words),
            words,
        )
    }
}

/// The unit at index `k` stands between a closed pair of delimiters when the
/// units are read from state `st` on.
pub open spec fn sheltered_at(
    units: Seq<Seq<char>>,
    k: int,
    st: Scan,
    words: Seq<Seq<char>>,
) -> bool {
    sheltered(state_after(units, k as nat, st, words), units.skip(k + 1))
}

// Where nothing is forbidden, nothing changes.

/// Units of which none is forbidden are written as they are.
pub proof fn harmless_units_pass(units: Seq<Seq<char>>, st: Scan, words: Seq<Seq<char>>)
    requires
        forall|k: int| 0 <= k < units.len() ==> !forbidden(#[trigger] units[k], words),
    ensures
        !changes(units, st, words),
    decreases units.len(),
{
    if units.len() > 0 {
        let rest = units.drop_first();
        assert(!forbidden(units[0], words));
        assert forall|k: int| 0 <= k < rest.len() implies !forbidden(#[trigger] rest[k], words) by {
            assert(rest[k] == units[k + 1]);
        }
        harmless_units_pass(rest, after_unit(st, units[0], rest, words), words);
    }
}

/// A text of which no unit is a forbidden word comes back as it was given,
/// and counts as unchanged.
pub proof fn text_without_words_is_unchanged(
    text: Seq<char>,
    words: Seq<Seq<char>>,
    mode: MatchMode,
)
    ensures
        (forall|k: int|
            0 <= k < units_of(lowercase(text), words, mode).len() ==> !forbidden(
                #[trigger] units_of(lowercase(text), words, mode)[k],
                words,
            )) ==> censored(text, words, mode) == text && !is_censored(text, words, mode),
{
    let units = units_of(lowercase(text), words, mode);
    if forall|k: int| 0 <= k < units.len() ==> !forbidden(#[trigger] units[k], words) {
        harmless_units_pass(units, start(), words);
    }
}

/// In substring matching every unit of a text occurs in the text.
pub proof fn units_occur_in_text(text: Seq<char>, words: Seq<Seq<char>>, k: int)
    requires
        0 <= k < split_matches(text, words).len(),
    ensures
        occurs_in(split_matches(text, words)[k], text),
    decreases text.len(),
{
    let n = unit_len(text, words);
    let rest = text.skip(n);
    if k == 0 {
        assert(text.take(n).is_prefix_of(text.skip(0)));
    } else {
        units_occur_in_text(rest, words, k - 1);
        let unit = split_matches(rest, words)[k - 1];
        let at = choose|at: int| 0 <= at <= rest.len() && #[trigger] unit.is_prefix_of(rest.skip(at));
        assert(rest.skip(at) =~= text.skip(n + at));
        assert(unit.is_prefix_of(text.skip(n + at)));
    }
}

/// A text in whose folded form no forbidden word occurs comes back as it was
/// given, in substring matching, and counts as unchanged.
pub proof fn text_without_occurrences_is_unchanged(text: Seq<char>, words: Seq<Seq<char>>)
    ensures
        (forall|word: Seq<char>| #[trigger]
            forbidden(word, words) ==> !occurs_in(word, lowercase(text))) ==> censored(
            text,
            words,
            MatchMode::Substring,
        ) == text && !is_censored(text, words, MatchMode::Substring),
{
    let folded = lowercase(text);
    let units = split_matches(folded, words);
    if forall|word: Seq<char>| #[trigger] forbidden(word, words) ==> !occurs_in(word, folded) {
        assert forall|k: int| 0 <= k < units.len() implies !forbidden(#[trigger] units[k], words) by {
            units_occur_in_text(folded, words, k);
        }
        harmless_units_pass(units, start(), words);
    }
}

// What is forbidden is put between delimiters.

proof fn lemma_occurs_later(part: Seq<char>, head: Seq<char>, tail: Seq<char>)
    requires
        occurs_in(part, tail),
    ensures
        occurs_in(part, head + tail),
{
    let at = choose|at: int| 0 <= at <= tail.len() && #[trigger] part.is_prefix_of(tail.skip(at));
    assert((head + tail).skip(head.len() + at) =~= tail.skip(at));
    assert(part.is_prefix_of((head + tail).skip(head.len() + at)));
}

/// A forbidden unit that does not stand between a closed pair of delimiters
/// is written between two delimiters, and the text counts as changed.
pub proof fn open_word_is_wrapped(units: Seq<Seq<char>>, k: int, st: Scan, words: Seq<Seq<char>>)
    requires
        0 <= k < units.len(),
        forbidden(units[k], words),
        !sheltered_at(units, k, st, words),
    ensures
        changes(units, st, words),
        occurs_in(delimiter() + units[k] + delimiter(), render(units, st, words)),
    decreases k,
{
    let rest = units.drop_first();
    let next = after_unit(st, units[0], rest, words);
    let tail = render(rest, next, words);
    let wrapped = delimiter() + units[k] + delimiter();
    if k == 0 {
        assert(units.skip(1) =~= rest);
        assert(wraps(st, units[0], rest, words));
        if st.hidden {
            let out = delimiter() + wrapped + tail;
            assert(out =~= render(units, st, words));
            assert(out.skip(2) =~= wrapped + tail);
            assert(wrapped.is_prefix_of(out.skip(2)));
        } else {
            assert((wrapped + tail).skip(0) =~= wrapped + tail);
            assert(wrapped.is_prefix_of((wrapped + tail).skip(0)));
        }
    } else {
        assert(rest[k - 1] == units[k]);
        assert(rest.skip(k) =~= units.skip(k + 1));
        open_word_is_wrapped(rest, k - 1, next, words);
        lemma_occurs_later(wrapped, piece(st, units[0], rest, words), tail);
    }
}

/// In a text, a segment that is a forbidden word and does not stand between
/// a closed pair of delimiters is hidden: the censored text holds it between
/// two delimiters, in its folded form, and counts as changed.
pub proof fn forbidden_token_is_hidden(text: Seq<char>, words: Seq<Seq<char>>, k: int)
    ensures
        ({
            let units = units_of(lowercase(text), words, MatchMode::ExactToken);
            0 <= k < units.len() && forbidden(units[k], words) && !sheltered_at(
                units,
                k,
                start(),
                words,
            )
        }) ==> is_censored(text, words, MatchMode::ExactToken) && occurs_in(
            delimiter() + units_of(lowercase(text), words, MatchMode::ExactToken)[k]
                + delimiter(),
            censored(text, words, MatchMode::ExactToken),
        ),
{
    let units = units_of(lowercase(text), words, MatchMode::ExactToken);
    if 0 <= k < units.len() && forbidden(units[k], words) && !sheltered_at(
        units,
        k,
        start(),
        words,
    ) {
        open_word_is_wrapped(units, k, start(), words);
    }
}

/// A text counts as changed exactly if a unit was put between delimiters.
pub proof fn changed_means_wrapped(units: Seq<Seq<char>>, st: Scan, words: Seq<Seq<char>>)
    ensures
        changes(units, st, words) == (hit_texts(units, st, words).len() > 0),
    decreases units.len(),
{
    if units.len() > 0 {
        let rest = units.drop_first();
        changed_means_wrapped(rest, after_unit(st, units[0], rest, words), words);
    }
}

/// Every unit that is put between delimiters is one of the forbidden words.
pub proof fn hits_are_forbidden(units: Seq<Seq<char>>, st: Scan, words: Seq<Seq<char>>, i: int)
    requires
        0 <= i < hit_texts(units, st, words).len(),
    ensures
        forbidden(hit_texts(units, st, words)[i], words),
    decreases units.len(),
{
    if units.len() > 0 {
        let rest = units.drop_first();
        let next = after_unit(st, units[0], rest, words);
        if !wraps(st, units[0], rest, words) {
            hits_are_forbidden(rest, next, words, i);
        } else if i > 0 {
            hits_are_forbidden(rest, next, words, i - 1);
        }
    }
}

// Nothing but markup is added.

proof fn lemma_without_pipes_joined(a: Seq<char>, b: Seq<char>)
    ensures
        without_pipes(a + b) == without_pipes(a) + without_pipes(b),
    decreases b.len(),
{
    reveal(Seq::filter);
    if b.len() > 0 {
        lemma_without_pipes_joined(a, b.drop_last());
        assert((a + b).drop_last() =~= a + b.drop_last());
    } else {
        assert(a + b =~= a);
    }
}

proof fn lemma_delimiter_is_markup()
    ensures
        without_pipes(delimiter()) == Seq::<char>::empty(),
{
    reveal_with_fuel(Seq::filter, 3);
    assert(delimiter().drop_last() =~= seq!['|']);
    assert(seq!['|'].drop_last() =~= Seq::<char>::empty());
}

/// Censoring adds spoiler markup and nothing else: without its `|`, the
/// censored text is the text without its `|`.
pub proof fn censoring_only_adds_markup(units: Seq<Seq<char>>, st: Scan, words: Seq<Seq<char>>)
    ensures
        without_pipes(render(units, st, words)) == without_pipes(units.flatten()),
    decreases units.len(),
{
    lemma_delimiter_is_markup();
    if units.len() == 0 {
        reveal(Seq::filter);
    } else {
        let unit = units[0];
        let rest = units.drop_first();
        let next = after_unit(st, unit, rest, words);
        let tail = render(rest, next, words);
        let none = Seq::<char>::empty();
        censoring_only_adds_markup(rest, next, words);
        lemma_without_pipes_joined(piece(st, unit, rest, words), tail);
        lemma_without_pipes_joined(unit, rest.flatten());
        lemma_without_pipes_joined(delimiter() + delimiter() + unit, delimiter());
        lemma_without_pipes_joined(delimiter() + delimiter(), unit);
        lemma_without_pipes_joined(delimiter(), delimiter());
        lemma_without_pipes_joined(delimiter() + unit, delimiter());
        lemma_without_pipes_joined(delimiter(), unit);
        assert(none + without_pipes(unit) =~= without_pipes(unit));
        assert(without_pipes(unit) + none =~= without_pipes(unit));
        assert(none + none =~= none);
    }
}

// Censoring twice gives what censoring once gave.

/// A single `|` as a unit.
pub open spec fn pipe() -> Seq<char> {
    seq!['|']
}

/// A sequence of units with one more unit in front.
pub open spec fn with_first(unit: Seq<char>, units: Seq<Seq<char>>) -> Seq<Seq<char>> {
    seq![unit] + units
}

/// A unit between two delimiters, each `|` a unit of its own, before the
/// units that follow.
pub open spec fn wrapped_before(unit: Seq<char>, units: Seq<Seq<char>>) -> Seq<Seq<char>> {
    with_first(
        pipe(),
        with_first(pipe(), with_first(unit, with_first(pipe(), with_first(pipe(), units)))),
    )
}

/// The units of a censored text as they were written: each unit that was
/// passed through, and around each hidden one the `|` of its delimiters.
pub open spec fn written_units(units: Seq<Seq<char>>, st: Scan, words: Seq<Seq<char>>) -> Seq<
    Seq<char>,
>
    decreases units.len(),
{
    if units.len() == 0 {
        Seq::empty()
    } else {
        let later = units.drop_first();
        let rest = written_units(later, after_unit(st, units[0], later, words), words);
        if !wraps(st, units[0], later, words) {
            with_first(units[0], rest)
        } else if st.hidden {
            with_first(pipe(), with_first(pipe(), wrapped_before(units[0], rest)))
        } else {
            wrapped_before(units[0], rest)
        }
    }
}

proof fn lemma_first_unit(unit: Seq<char>, units: Seq<Seq<char>>, st: Scan, words: Seq<Seq<char>>)
    ensures
        render(with_first(unit, units), st, words) == piece(st, unit, units, words) + render(
            units,
            after_unit(st, unit, units, words),
            words,
        ),
        changes(with_first(unit, units), st, words) == (wraps(st, unit, units, words) || changes(
            units,
            after_unit(st, unit, units, words),
            words,
        )),
        with_first(unit, units).flatten() == unit + units.flatten(),
        forall|pending: bool|
            closes_in(with_first(unit, units), pending) == (closes(unit, pending) || closes_in(
                units,
                pending_after(unit, pending),
            )),
{
    assert(with_first(unit, units).drop_first() =~= units);
    assert(with_first(unit, units)[0] == unit);
}

/// What reading a single `|` does.
proof fn lemma_first_pipe(units: Seq<Seq<char>>, st: Scan, words: Seq<Seq<char>>)
    ensures
        render(with_first(pipe(), units), st, words) == pipe() + render(
            units,
            read_char(st, '|'),
            words,
        ),
        changes(with_first(pipe(), units), st, words) == changes(units, read_char(st, '|'), words),
        closes_in(with_first(pipe(), units), true),
        closes_in(with_first(pipe(), units), false) == closes_in(units, true),
{
    assert(pipe()[0] == '|');
    assert(pipe().drop_first() =~= Seq::<char>::empty());
    reveal_with_fuel(read_chars, 2);
    reveal_with_fuel(closes, 2);
    reveal_with_fuel(pending_after, 2);
    lemma_first_unit(pipe(), units, st, words);
}

proof fn lemma_plain_chars(unit: Seq<char>, st: Scan)
    requires
        pipe_free(unit),
    ensures
        read_chars(st, unit) == if unit.len() > 0 {
            Scan { hidden: st.hidden, pending: false }
        } else {
            st
        },
        !closes(unit, st.pending),
        pending_after(unit, st.pending) == (unit.len() == 0 && st.pending),
    decreases unit.len(),
{
    if unit.len() > 0 {
        let rest = unit.drop_first();
        assert(unit[0] != '|');
        assert forall|i: int| 0 <= i < rest.len() implies rest[i] != '|' by {
            assert(rest[i] == unit[i + 1]);
        }
        lemma_plain_chars(rest, read_char(st, unit[0]));
    }
}

/// What reading a unit without `|` does.
proof fn lemma_plain(unit: Seq<char>, st: Scan)
    requires
        pipe_free(unit),
        unit.len() > 0,
    ensures
        read_chars(st, unit) == (Scan { hidden: st.hidden, pending: false }),
        !closes(unit, st.pending),
        !pending_after(unit, st.pending),
{
    lemma_plain_chars(unit, st);
}

/// A reader keeps to the spoiler it is in until a delimiter is read.
proof fn lemma_read(unit: Seq<char>, st: Scan)
    ensures
        !closes(unit, st.pending) ==> read_chars(st, unit) == (Scan {
            hidden: st.hidden,
            pending: pending_after(unit, st.pending),
        }),
    decreases unit.len(),
{
    if unit.len() > 0 {
        let next = read_char(st, unit[0]);
        lemma_read(unit.drop_first(), next);
        if !closes(unit, st.pending) {
            assert(next.hidden == st.hidden);
            assert(next.pending == (unit[0] == '|' && !st.pending));
            assert(!closes(unit.drop_first(), next.pending));
        }
    }
}

/// A spoiler that the text closes is closed in the censored text too.
proof fn lemma_still_closed(units: Seq<Seq<char>>, st: Scan, words: Seq<Seq<char>>)
    requires
        st.hidden,
        closes_in(units, st.pending),
    ensures
        closes_in(written_units(units, st, words), st.pending),
    decreases units.len(),
{
    let unit = units[0];
    let later = units.drop_first();
    let next = after_unit(st, unit, later, words);
    let rest = written_units(later, next, words);
    lemma_first_unit(unit, rest, st, words);
    if !forbidden(unit, words) {
        lemma_read(unit, st);
        if !closes(unit, st.pending) {
            lemma_still_closed(later, next, words);
        }
    } else {
        lemma_plain(unit, st);
        lemma_still_closed(later, next, words);
    }
}

/// A unit between delimiters is passed through, and the reader leaves the
/// spoiler behind it.
proof fn lemma_wrapped_passes(unit: Seq<char>, units: Seq<Seq<char>>, st: Scan, words: Seq<Seq<char>>)
    requires
        forbidden(unit, words),
        !st.hidden,
    ensures
        render(wrapped_before(unit, units), st, words) == delimiter() + unit + delimiter() + render(
            units,
            start(),
            words,
        ),
        changes(wrapped_before(unit, units), st, words) == changes(units, start(), words),
{
    let s1 = read_char(st, '|');
    let s2 = read_char(s1, '|');
    let s4 = read_char(inside(), '|');
    let u4 = with_first(pipe(), units);
    let u3 = with_first(pipe(), u4);
    let u2 = with_first(unit, u3);
    let u1 = with_first(pipe(), u2);
    lemma_first_pipe(units, s4, words);
    lemma_first_pipe(u4, inside(), words);
    lemma_first_unit(unit, u3, s2, words);
    lemma_first_pipe(u2, s1, words);
    lemma_first_pipe(u1, st, words);
    assert(sheltered(s2, u3));
    let tail = render(units, start(), words);
    assert(pipe() + (pipe() + (unit + (pipe() + (pipe() + tail)))) =~= delimiter() + unit
        + delimiter() + tail);
}

/// Censoring what censoring wrote changes nothing: read from the same state,
/// the written units give the same text again, and none of them is put
/// between delimiters anew.
pub proof fn written_units_are_stable(units: Seq<Seq<char>>, st: Scan, words: Seq<Seq<char>>)
    ensures
        render(written_units(units, st, words), st, words) == render(units, st, words),
        !changes(written_units(units, st, words), st, words),
    decreases units.len(),
{
    if units.len() > 0 {
        let unit = units[0];
        let later = units.drop_first();
        let next = after_unit(st, unit, later, words);
        let rest = written_units(later, next, words);
        let tail = render(later, next, words);
        written_units_are_stable(later, next, words);
        if !forbidden(unit, words) {
            lemma_first_unit(unit, rest, st, words);
        } else if sheltered(st, later) {
            lemma_still_closed(later, inside(), words);
            lemma_first_unit(unit, rest, st, words);
        } else if st.hidden {
            // The first delimiter closes the open spoiler.
            let s1 = read_char(st, '|');
            let s2 = read_char(s1, '|');
            let inner = wrapped_before(unit, rest);
            lemma_wrapped_passes(unit, rest, s2, words);
            lemma_first_pipe(inner, s1, words);
            lemma_first_pipe(with_first(pipe(), inner), st, words);
            assert(pipe() + (pipe() + (delimiter() + unit + delimiter() + tail)) =~= delimiter()
                + delimiter() + unit + delimiter() + tail);
        } else {
            lemma_wrapped_passes(unit, rest, st, words);
        }
    }
}

/// The written units, joined, are the censored text.
pub proof fn written_units_spell_the_text(units: Seq<Seq<char>>, st: Scan, words: Seq<Seq<char>>)
    ensures
        written_units(units, st, words).flatten() == render(units, st, words),
    decreases units.len(),
{
    if units.len() > 0 {
        let unit = units[0];
        let later = units.drop_first();
        let next = after_unit(st, unit, later, words);
        let rest = written_units(later, next, words);
        let tail = render(later, next, words);
        written_units_spell_the_text(later, next, words);
        if !wraps(st, unit, later, words) {
            lemma_first_unit(unit, rest, st, words);
        } else {
            let u4 = with_first(pipe(), rest);
            let u3 = with_first(pipe(), u4);
            let u2 = with_first(unit, u3);
            let u1 = with_first(pipe(), u2);
            let inner = wrapped_before(unit, rest);
            lemma_first_unit(pipe(), rest, st, words);
            lemma_first_unit(pipe(), u4, st, words);
            lemma_first_unit(unit, u3, st, words);
            lemma_first_unit(pipe(), u2, st, words);
            lemma_first_unit(pipe(), u1, st, words);
            assert(inner.flatten() =~= delimiter() + unit + delimiter() + tail);
            if st.hidden {
                lemma_first_unit(pipe(), inner, st, words);
                lemma_first_unit(pipe(), with_first(pipe(), inner), st, words);
                assert(pipe() + (pipe() + (delimiter() + unit + delimiter() + tail))
                    =~= delimiter() + delimiter() + unit + delimiter() + tail);
            }
        }
    }
}

/// The units of substring matching, joined, are the text.
pub proof fn split_matches_spell_the_text(text: Seq<char>, words: Seq<Seq<char>>)
    ensures
        split_matches(text, words).flatten() == text,
    decreases text.len(),
{
    if text.len() > 0 {
        let n = unit_len(text, words);
        split_matches_spell_the_text(text.skip(n), words);
        lemma_first_unit(text.take(n), split_matches(text.skip(n), words), start(), words);
        assert(text.take(n) + text.skip(n) =~= text);
    }
}

/// A run without `|` at the start of a censored text stood at the start of
/// the text before censoring too.
proof fn lemma_visible_prefix(
    units: Seq<Seq<char>>,
    st: Scan,
    words: Seq<Seq<char>>,
    run: Seq<char>,
)
    requires
        pipe_free(run),
        run.is_prefix_of(render(units, st, words)),
    ensures
        run.is_prefix_of(units.flatten()),
    decreases units.len(),
{
    let out = render(units, st, words);
    if units.len() == 0 || wraps(st, units[0], units.drop_first(), words) {
        // What is written begins with a `|`, if it holds anything.
        if run.len() > 0 {
            assert(out[0] == '|');
            assert(run[0] == out.subrange(0, run.len() as int)[0]);
        }
    } else {
        let unit = units[0];
        let later = units.drop_first();
        let next = after_unit(st, unit, later, words);
        let tail = render(later, next, words);
        let plain = later.flatten();
        assert(units.flatten() == unit + plain);
        if run.len() > unit.len() {
            let more = run.skip(unit.len() as int);
            assert(more =~= tail.subrange(0, more.len() as int)) by {
                assert forall|i: int| 0 <= i < more.len() implies more[i] == tail[i] by {
                    assert(run[unit.len() + i] == out.subrange(0, run.len() as int)[unit.len()
                        + i]);
                }
            }
            lemma_visible_prefix(later, next, words, more);
            assert forall|i: int| unit.len() <= i < run.len() implies run[i] == plain[i
                - unit.len()] by {
                assert(more[i - unit.len()] == plain.subrange(0, more.len() as int)[i
                    - unit.len()]);
            }
        }
        assert(run =~= (unit + plain).subrange(0, run.len() as int)) by {
            assert forall|i: int| 0 <= i < run.len() implies run[i] == (unit + plain)[i] by {
                assert(run[i] == out.subrange(0, run.len() as int)[i]);
            }
        }
    }
}

proof fn lemma_longest_is_longest(text: Seq<char>, words: Seq<Seq<char>>, limit: nat)
    requires
        limit <= text.len(),
    ensures
        longest_upto(text, words, limit) <= limit,
        longest_upto(text, words, limit) > 0 ==> forbidden(
            text.take(longest_upto(text, words, limit) as int),
            words,
        ),
        forall|m: int|
            longest_upto(text, words, limit) < m <= limit ==> !forbidden(
                #[trigger] text.take(m),
                words,
            ),
    decreases limit,
{
    if limit > 0 && !forbidden(text.take(limit as int), words) {
        lemma_longest_is_longest(text, words, (limit - 1) as nat);
    }
}

/// Where a text begins with a unit and goes on with a rest, and no longer
/// beginning of it is a forbidden word, its units are that unit and the units
/// of the rest.
proof fn lemma_split_first(unit: Seq<char>, rest: Seq<char>, words: Seq<Seq<char>>)
    requires
        forbidden(unit, words) || unit.len() == 1,
        forall|m: int|
            unit.len() < m <= unit.len() + rest.len() ==> !forbidden(
                #[trigger] (unit + rest).take(m),
                words,
            ),
    ensures
        split_matches(unit + rest, words) == with_first(unit, split_matches(rest, words)),
{
    let text = unit + rest;
    let n = unit.len();
    assert(text.take(n as int) =~= unit);
    assert(text.skip(n as int) =~= rest);
    if forbidden(unit, words) {
        lemma_longest_upto(text, words, text.len(), n);
    } else {
        lemma_longest_upto(text, words, text.len(), 0);
    }
}

proof fn lemma_split_pipe(rest: Seq<char>, words: Seq<Seq<char>>)
    ensures
        split_matches(pipe() + rest, words) == with_first(pipe(), split_matches(rest, words)),
{
    assert forall|m: int| 1 <= m <= 1 + rest.len() implies !forbidden(
        #[trigger] (pipe() + rest).take(m),
        words,
    ) by {
        assert((pipe() + rest).take(m)[0] == '|');
    }
    lemma_split_first(pipe(), rest, words);
}

/// A forbidden word, or a character at which no forbidden word begins, stays
/// a unit of its own when the text that follows it is censored.
proof fn lemma_unit_survives(text: Seq<char>, tail: Seq<char>, words: Seq<Seq<char>>)
    requires
        text.len() > 0,
        forall|run: Seq<char>|
            pipe_free(run) && #[trigger] run.is_prefix_of(tail) ==> run.is_prefix_of(
                text.skip(unit_len(text, words)),
            ),
    ensures
        split_matches(text.take(unit_len(text, words)) + tail, words) == with_first(
            text.take(unit_len(text, words)),
            split_matches(tail, words),
        ),
{
    let n = unit_len(text, words);
    let unit = text.take(n);
    let rest = text.skip(n);
    let after = unit + tail;
    lemma_longest_is_longest(text, words, text.len());
    assert forall|m: int| n < m <= n + tail.len() implies !forbidden(
        #[trigger] after.take(m),
        words,
    ) by {
        let run = after.take(m);
        if forbidden(run, words) {
            // The run goes on into the censored rest, so it stood in the text,
            // where no forbidden word is longer than the unit.
            let more = run.skip(n);
            assert(more =~= tail.subrange(0, more.len() as int));
            assert(pipe_free(more)) by {
                assert forall|i: int| 0 <= i < more.len() implies more[i] != '|' by {
                    assert(more[i] == run[n + i]);
                }
            }
            assert(more.is_prefix_of(tail));
            assert(more.is_prefix_of(rest));
            assert(run =~= text.take(m)) by {
                assert forall|i: int| 0 <= i < m implies run[i] == text[i] by {
                    if i >= n {
                        assert(more[i - n] == rest.subrange(0, more.len() as int)[i - n]);
                    }
                }
            }
            assert(forbidden(text.take(m), words));
        }
    }
    lemma_split_first(unit, tail, words);
}

/// In substring matching, the units of a censored text are the units that
/// were written.
pub proof fn censored_text_splits_as_written(text: Seq<char>, st: Scan, words: Seq<Seq<char>>)
    ensures
        split_matches(render(split_matches(text, words), st, words), words) == written_units(
            split_matches(text, words),
            st,
            words,
        ),
    decreases text.len(),
{
    if text.len() > 0 {
        let n = unit_len(text, words);
        let unit = text.take(n);
        let rest = text.skip(n);
        let later = split_matches(rest, words);
        let next = after_unit(st, unit, later, words);
        let tail = render(later, next, words);
        assert(split_matches(text, words).drop_first() =~= later);
        assert(split_matches(text, words)[0] == unit);
        censored_text_splits_as_written(rest, next, words);
        split_matches_spell_the_text(rest, words);
        assert forall|run: Seq<char>|
            pipe_free(run) && #[trigger] run.is_prefix_of(tail) implies run.is_prefix_of(rest) by {
            lemma_visible_prefix(later, next, words, run);
        }
        if wraps(st, unit, later, words) {
            let closed = pipe() + (pipe() + tail);
            assert forall|run: Seq<char>|
                pipe_free(run) && #[trigger] run.is_prefix_of(closed) implies run.is_prefix_of(
                rest,
            ) by {
                if run.len() > 0 {
                    assert(closed[0] == '|');
                    assert(run[0] == closed.subrange(0, run.len() as int)[0]);
                }
            }
            lemma_unit_survives(text, closed, words);
            lemma_split_pipe(tail, words);
            lemma_split_pipe(pipe() + tail, words);
            lemma_split_pipe(unit + closed, words);
            lemma_split_pipe(pipe() + (unit + closed), words);
            let inner = pipe() + (pipe() + (unit + closed));
            assert(inner =~= (delimiter() + unit + delimiter()) + tail);
            if st.hidden {
                lemma_split_pipe(inner, words);
                lemma_split_pipe(pipe() + inner, words);
                assert(pipe() + (pipe() + inner) =~= (delimiter() + delimiter() + unit
                    + delimiter()) + tail);
            }
        } else {
            lemma_unit_survives(text, tail, words);
        }
    }
}

/// Censoring a censored text again changes nothing, in substring matching,
/// provided the censored text is its own lower-case form.
pub proof fn censoring_twice_changes_nothing(text: Seq<char>, words: Seq<Seq<char>>)
    ensures
        ({
            let once = censored(text, words, MatchMode::Substring);
            lowercase(once) == once ==> censored(once, words, MatchMode::Substring) == once
                && !is_censored(once, words, MatchMode::Substring)
        }),
{
    let once = censored(text, words, MatchMode::Substring);
    if lowercase(once) == once && is_censored(text, words, MatchMode::Substring) {
        censored_text_splits_as_written(lowercase(text), start(), words);
        written_units_are_stable(split_matches(lowercase(text), words), start(), words);
    }
}

/// Censoring a censored text again changes nothing, in exact-token matching,
/// provided the censored text is its own lower-case form and the word
/// boundaries of the censored text are those of the units as they were
/// written.
pub proof fn censoring_tokens_twice_changes_nothing(text: Seq<char>, words: Seq<Seq<char>>)
    ensures
        ({
            let once = censored(text, words, MatchMode::ExactToken);
            lowercase(once) == once && word_bounds(once) == written_units(
                word_bounds(lowercase(text)),
                start(),
                words,
            ) ==> censored(once, words, MatchMode::ExactToken) == once && !is_censored(
                once,
                words,
                MatchMode::ExactToken,
            )
        }),
{
    written_units_are_stable(word_bounds(lowercase(text)), start(), words);
}

} // verus!
