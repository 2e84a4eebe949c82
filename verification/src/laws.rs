//! What holds of reading and showing durations, for every input.

use crate::decimal::{decimal_digits, lemma_decimal_round_trip, saturate};
use crate::duration::MAX_SECS;
use crate::error::Fault;
use crate::flat::{component, count_of, flat_terms, format_of, lemma_layout};
use crate::grammar::{phrase_secs, phrase_terms, terms_from};
use crate::scan::{all_in, lemma_run_end_is, run_end, CharClass};
use crate::spelling::{
    all_valid, compact_words, is_phrase, lemma_spelled_one, spelled, spells, terms_of, Spelling,
};
use crate::term::{lemma_total_concat, total_secs, Term};
use crate::unit::{lemma_abbrev_resolves, UnitKind};
use vstd::prelude::*;

verus! {

/// Where the text from `i` on is `run` followed by `after`, `run` holds
/// characters of `class` only and `after` does not begin with one, the
/// run of `class` at `i` is `run`, and `after` is what follows it.
pub proof fn lemma_run_over(
    s: Seq<char>,
    i: int,
    run: Seq<char>,
    after: Seq<char>,
    class: CharClass,
)
    requires
        0 <= i <= s.len(),
        s.subrange(i, s.len() as int) == run + after,
        all_in(run, class),
        after.len() > 0 ==> !class.contains(after[0]),
    ensures
        run_end(s, i, class) == i + run.len(),
        i + run.len() + after.len() == s.len(),
        s.subrange(i, i + run.len()) == run,
        s.subrange(i + run.len(), s.len() as int) == after,
{
    let len = s.len() as int;
    let j = i + run.len();
    let whole = s.subrange(i, len);
    assert(whole.len() == run.len() + after.len());
    assert forall|k: int| 0 <= k < j - i implies class.contains(#[trigger] s.subrange(i, j)[k]) by {
        assert(whole[k] == s[i + k]);
        assert((run + after)[k] == run[k]);
    }
    if j < len {
        assert(whole[j - i] == s[j]);
        assert((run + after)[run.len() as int] == after[0]);
    }
    lemma_run_end_is(s, i, j, class);
    assert forall|k: int| 0 <= k < run.len() implies s.subrange(i, j)[k] == run[k] by {
        assert(whole[k] == s[i + k]);
        assert((run + after)[k] == run[k]);
    }
    assert(s.subrange(i, j) =~= run);
    assert forall|k: int| 0 <= k < after.len() implies s.subrange(j, len)[k] == after[k] by {
        assert(whole[run.len() + k] == s[j + k]);
        assert((run + after)[run.len() + k] == after[k]);
    }
    assert(s.subrange(j, len) =~= after);
}

/// The text of valid spellings begins, where it is not empty, with
/// whitespace or a digit.
proof fn lemma_spelled_start(words: Seq<Spelling>)
    requires
        all_valid(words),
        words.len() > 0,
    ensures
        spelled(words).len() > 0,
        !CharClass::Letter.contains(spelled(words)[0]),
{
    let w = words.first();
    assert(w.valid());
    let text = spelled(words);
    assert(text == w.text() + spelled(words.drop_first()));
    if w.lead.len() > 0 {
        assert(text[0] == w.lead[0]);
        assert(CharClass::Space.contains(w.lead[0]));
    } else {
        assert(text[0] == w.digits[0]);
        assert(CharClass::Digit.contains(w.digits[0]));
    }
}

/// Reading from the integer of the first of `words` gives the terms
/// that `words` spell.
proof fn lemma_terms_spelled(
    s: Seq<char>,
    pos: int,
    words: Seq<Spelling>,
    tail: Seq<char>,
    first: bool,
)
    requires
        0 <= pos <= s.len(),
        words.len() > 0,
        all_valid(words),
        all_in(tail, CharClass::Space),
        s.subrange(pos, s.len() as int) == words.first().body() + spelled(words.drop_first())
            + tail,
    ensures
        terms_from(s, pos, first) == Ok::<Seq<Term>, Fault>(terms_of(words)),
    decreases words.len(),
{
    let len = s.len() as int;
    let w = words.first();
    let rest = words.drop_first();
    assert(w.valid());
    assert(all_valid(rest)) by {
        assert forall|k: int| 0 <= k < rest.len() implies (#[trigger] rest[k]).valid() by {
            assert(rest[k] == words[k + 1]);
        }
    }
    let after_label = spelled(rest) + tail;
    let after_gap = w.label + after_label;
    let after_digits = w.gap + after_gap;
    assert(s.subrange(pos, len) =~= w.digits + after_digits);
    assert(!CharClass::Digit.contains(after_digits[0])) by {
        if w.gap.len() > 0 {
            assert(after_digits[0] == w.gap[0]);
            assert(CharClass::Space.contains(w.gap[0]));
        } else {
            assert(after_digits[0] == w.label[0]);
            assert(CharClass::Letter.contains(w.label[0]));
        }
    }
    lemma_run_over(s, pos, w.digits, after_digits, CharClass::Digit);
    let digits_end = pos + w.digits.len();
    assert(!CharClass::Space.contains(after_gap[0])) by {
        assert(after_gap[0] == w.label[0]);
        assert(CharClass::Letter.contains(w.label[0]));
    }
    lemma_run_over(s, digits_end, w.gap, after_gap, CharClass::Space);
    let label_start = digits_end + w.gap.len();
    assert(after_label.len() > 0 ==> !CharClass::Letter.contains(after_label[0])) by {
        if rest.len() > 0 {
            lemma_spelled_start(rest);
            assert(after_label[0] == spelled(rest)[0]);
        } else if tail.len() > 0 {
            assert(spelled(rest) =~= Seq::<char>::empty());
            assert(after_label[0] == tail[0]);
            assert(CharClass::Space.contains(tail[0]));
        }
    }
    lemma_run_over(s, label_start, w.label, after_label, CharClass::Letter);
    let label_end = label_start + w.label.len();
    if rest.len() == 0 {
        assert(spelled(rest) =~= Seq::<char>::empty());
        assert(after_label =~= tail + Seq::<char>::empty());
        lemma_run_over(s, label_end, tail, Seq::<char>::empty(), CharClass::Space);
        assert(terms_of(words) =~= seq![w.term()]);
    } else {
        let r = rest.first();
        assert(r.valid());
        let after_lead = r.body() + spelled(rest.drop_first()) + tail;
        assert(after_label =~= r.lead + after_lead);
        assert(!CharClass::Space.contains(after_lead[0])) by {
            assert(after_lead[0] == r.digits[0]);
            assert(CharClass::Digit.contains(r.digits[0]));
        }
        lemma_run_over(s, label_end, r.lead, after_lead, CharClass::Space);
        let next = label_end + r.lead.len();
        lemma_terms_spelled(s, next, rest, tail, false);
        assert(terms_of(words) =~= seq![w.term()] + terms_of(rest));
    }
}

/// Every text that is put together from spellings of terms and ends in
/// any amount of whitespace is a phrase, and its terms are the terms
/// spelled, in their order: how much whitespace stands before, between
/// and after the integers and labels makes no difference.
pub proof fn lemma_phrase_spelled(words: Seq<Spelling>, tail: Seq<char>)
    requires
        words.len() > 0,
        all_valid(words),
        all_in(tail, CharClass::Space),
    ensures
        phrase_terms(spelled(words) + tail) == Ok::<Seq<Term>, Fault>(terms_of(words)),
{
    let s = spelled(words) + tail;
    let w = words.first();
    assert(w.valid());
    let after_lead = w.body() + spelled(words.drop_first()) + tail;
    assert(s.subrange(0, s.len() as int) =~= w.lead + after_lead);
    assert(!CharClass::Space.contains(after_lead[0])) by {
        assert(after_lead[0] == w.digits[0]);
        assert(CharClass::Digit.contains(w.digits[0]));
    }
    lemma_run_over(s, 0, w.lead, after_lead, CharClass::Space);
    lemma_terms_spelled(s, w.lead.len() as int, words, tail, true);
}

/// What is read from a term on is put together from spellings of terms:
/// the first without whitespace before it, the last followed by
/// whitespace up to the end of the text.
proof fn lemma_terms_are_spelled(s: Seq<char>, pos: int, first: bool) -> (r: (
    Seq<Spelling>,
    Seq<char>,
))
    requires
        0 <= pos < s.len(),
        terms_from(s, pos, first) is Ok,
    ensures
        r.0.len() > 0,
        all_valid(r.0),
        all_in(r.1, CharClass::Space),
        r.0.first().lead.len() == 0,
        s.subrange(pos, s.len() as int) == spelled(r.0) + r.1,
        terms_from(s, pos, first) == Ok::<Seq<Term>, Fault>(terms_of(r.0)),
    decreases s.len() - pos,
{
    let len = s.len() as int;
    let digits_end = run_end(s, pos, CharClass::Digit);
    let label_start = run_end(s, digits_end, CharClass::Space);
    let label_end = run_end(s, label_start, CharClass::Letter);
    let next = run_end(s, label_end, CharClass::Space);
    crate::grammar::lemma_term_bounds(s, pos);
    crate::scan::lemma_run_end(s, pos, CharClass::Digit);
    crate::scan::lemma_run_end(s, digits_end, CharClass::Space);
    crate::scan::lemma_run_end(s, label_start, CharClass::Letter);
    crate::scan::lemma_run_end(s, label_end, CharClass::Space);
    let word = Spelling {
        lead: Seq::empty(),
        digits: s.subrange(pos, digits_end),
        gap: s.subrange(digits_end, label_start),
        label: s.subrange(label_start, label_end),
    };
    assert(word.valid());
    assert(word.text() =~= s.subrange(pos, label_end));
    if next >= len {
        let tail = s.subrange(label_end, len);
        let words = seq![word];
        lemma_spelled_one(word);
        assert(s.subrange(pos, len) =~= word.text() + tail);
        assert(terms_of(words) =~= seq![word.term()]);
        (words, tail)
    } else {
        let (rest, tail) = lemma_terms_are_spelled(s, next, false);
        let second = Spelling { lead: s.subrange(label_end, next), ..rest.first() };
        let others = rest.drop_first();
        let words = seq![word, second] + others;
        assert(rest.first().valid());
        assert(second.valid());
        assert(all_valid(words)) by {
            assert forall|k: int| 0 <= k < words.len() implies (#[trigger] words[k]).valid() by {
                if k >= 2 {
                    assert(words[k] == rest[k - 1]);
                }
            }
        }
        assert(second.term() == rest.first().term());
        assert(terms_of(words) =~= seq![word.term()] + terms_of(rest));
        assert(words.drop_first() =~= seq![second] + others);
        assert((seq![second] + others).drop_first() =~= others);
        assert(spelled(seq![second] + others) == second.text() + spelled(others));
        assert(spelled(rest) == rest.first().text() + spelled(others));
        assert(rest.first().text() =~= rest.first().body());
        assert(second.text() =~= s.subrange(label_end, next) + rest.first().body());
        assert(s.subrange(pos, len) =~= s.subrange(pos, label_end) + s.subrange(label_end, next)
            + s.subrange(next, len));
        assert(spelled(words) + tail =~= word.text() + (s.subrange(label_end, next) + (spelled(
            rest,
        ) + tail)));
        (words, tail)
    }
}

/// Every phrase is put together from spellings of terms and ends in
/// whitespace, and its terms are the terms so spelled.
pub proof fn lemma_phrase_is_spelled(text: Seq<char>) -> (r: (Seq<Spelling>, Seq<char>))
    requires
        phrase_terms(text) is Ok,
    ensures
        spells(r.0, r.1, text),
        phrase_terms(text) == Ok::<Seq<Term>, Fault>(terms_of(r.0)),
{
    let start = run_end(text, 0, CharClass::Space);
    crate::scan::lemma_run_end(text, 0, CharClass::Space);
    let (found, tail) = lemma_terms_are_spelled(text, start, true);
    let head = Spelling { lead: text.subrange(0, start), ..found.first() };
    let others = found.drop_first();
    let words = seq![head] + others;
    assert(found.first().valid());
    assert(head.valid());
    assert forall|k: int| 0 <= k < words.len() implies (#[trigger] words[k]).valid() by {
        if k >= 1 {
            assert(words[k] == found[k]);
        }
    }
    assert(head.term() == found.first().term());
    assert(terms_of(words) =~= terms_of(found));
    assert(words.drop_first() =~= others);
    assert(spelled(words) == head.text() + spelled(others));
    assert(spelled(found) == found.first().text() + spelled(others));
    assert(found.first().text() =~= found.first().body());
    assert(head.text() =~= text.subrange(0, start) + found.first().body());
    assert(text =~= text.subrange(0, start) + text.subrange(start, text.len() as int));
    assert(spelled(words) + tail =~= text.subrange(0, start) + (spelled(found) + tail));
    (words, tail)
}

/// The grammar, stated outright: a text is a phrase of the terms
/// `terms` exactly where it is put together from spellings of these
/// terms, in their order, and ends in any amount of whitespace.
pub proof fn lemma_grammar(text: Seq<char>, terms: Seq<Term>)
    ensures
        phrase_terms(text) == Ok::<Seq<Term>, Fault>(terms) <==> exists|
            words: Seq<Spelling>,
            tail: Seq<char>,
        | #[trigger] spells(words, tail, text) && terms_of(words) == terms,
{
    if phrase_terms(text) == Ok::<Seq<Term>, Fault>(terms) {
        let (words, tail) = lemma_phrase_is_spelled(text);
        assert(spells(words, tail, text) && terms_of(words) == terms);
    }
    if exists|words: Seq<Spelling>, tail: Seq<char>| #[trigger]
        spells(words, tail, text) && terms_of(words) == terms {
        let (words, tail) = choose|words: Seq<Spelling>, tail: Seq<char>| #[trigger]
            spells(words, tail, text) && terms_of(words) == terms;
        lemma_phrase_spelled(words, tail);
    }
}

/// A text is read with success exactly where it is a phrase, and what
/// is read are the terms of any of its spellings.
pub proof fn lemma_phrases_are_read(text: Seq<char>)
    ensures
        phrase_terms(text) is Ok <==> is_phrase(text),
        forall|words: Seq<Spelling>, tail: Seq<char>| #[trigger]
            spells(words, tail, text) ==> phrase_terms(text) == Ok::<Seq<Term>, Fault>(
                terms_of(words),
            ),
{
    if phrase_terms(text) is Ok {
        let (words, tail) = lemma_phrase_is_spelled(text);
        assert(spells(words, tail, text));
    }
    assert forall|words: Seq<Spelling>, tail: Seq<char>| #[trigger]
        spells(words, tail, text) implies phrase_terms(text) == Ok::<Seq<Term>, Fault>(
        terms_of(words),
    ) by {
        lemma_phrase_spelled(words, tail);
    }
}

/// Whitespace does not matter: two texts that spell the same integers
/// and labels in the same order, with whatever whitespace before,
/// between and after them, are read alike.
pub proof fn lemma_spacing_is_irrelevant(
    a: Seq<Spelling>,
    a_tail: Seq<char>,
    b: Seq<Spelling>,
    b_tail: Seq<char>,
)
    requires
        a.len() > 0,
        a.len() == b.len(),
        all_valid(a),
        all_valid(b),
        forall|k: int|
            0 <= k < a.len() ==> (#[trigger] a[k]).digits == b[k].digits && a[k].label
                == b[k].label,
        all_in(a_tail, CharClass::Space),
        all_in(b_tail, CharClass::Space),
    ensures
        phrase_terms(spelled(a) + a_tail) == phrase_terms(spelled(b) + b_tail),
        phrase_secs(spelled(a) + a_tail) == phrase_secs(spelled(b) + b_tail),
{
    lemma_phrase_spelled(a, a_tail);
    lemma_phrase_spelled(b, b_tail);
    assert(terms_of(a) =~= terms_of(b));
}

/// The sum of a single term.
proof fn lemma_total_component(count: nat, unit: UnitKind)
    ensures
        total_secs(component(count, unit)) == count * unit.secs(),
{
    let c = component(count, unit);
    if count > 0 {
        assert(c.drop_last() =~= Seq::<Term>::empty());
        assert(total_secs(c.drop_last()) == 0);
        assert(c.last().secs() == count * unit.secs());
    } else {
        assert(count * unit.secs() == 0) by (nonlinear_arith)
            requires
                count == 0,
        ;
    }
}

/// The greedy layout states its total: laying a number of seconds out
/// over the units and summing the terms gives the number back.
pub proof fn lemma_flat_total(total: nat)
    ensures
        total_secs(flat_terms(total)) == total,
{
    let y = component(count_of(total, UnitKind::Year), UnitKind::Year);
    let mo = component(count_of(total, UnitKind::Month), UnitKind::Month);
    let w = component(count_of(total, UnitKind::Week), UnitKind::Week);
    let d = component(count_of(total, UnitKind::Day), UnitKind::Day);
    let h = component(count_of(total, UnitKind::Hour), UnitKind::Hour);
    let mi = component(count_of(total, UnitKind::Minute), UnitKind::Minute);
    let sec = component(count_of(total, UnitKind::Second), UnitKind::Second);
    lemma_total_component(count_of(total, UnitKind::Year), UnitKind::Year);
    lemma_total_component(count_of(total, UnitKind::Month), UnitKind::Month);
    lemma_total_component(count_of(total, UnitKind::Week), UnitKind::Week);
    lemma_total_component(count_of(total, UnitKind::Day), UnitKind::Day);
    lemma_total_component(count_of(total, UnitKind::Hour), UnitKind::Hour);
    lemma_total_component(count_of(total, UnitKind::Minute), UnitKind::Minute);
    lemma_total_component(count_of(total, UnitKind::Second), UnitKind::Second);
    lemma_total_concat(y, mo);
    lemma_total_concat(y + mo, w);
    lemma_total_concat(y + mo + w, d);
    lemma_total_concat(y + mo + w + d, h);
    lemma_total_concat(y + mo + w + d + h, mi);
    lemma_total_concat(y + mo + w + d + h + mi, sec);
    lemma_layout(total);
    assert(flat_terms(total) == y + mo + w + d + h + mi + sec);
    assert(total_secs(flat_terms(total)) == total_secs(y) + total_secs(mo) + total_secs(w)
        + total_secs(d) + total_secs(h) + total_secs(mi) + total_secs(sec));
    let ones = count_of(total, UnitKind::Second);
    let one = UnitKind::Second.secs();
    assert(ones * one == ones) by (nonlinear_arith)
        requires
            one == 1,
    ;
}

/// Whether the units of `terms` get strictly smaller from each term to
/// the next.
pub open spec fn descending(terms: Seq<Term>) -> bool {
    forall|i: int, j: int|
        0 <= i < j < terms.len() ==> (#[trigger] terms[i]).unit.secs() > (
        #[trigger] terms[j]).unit.secs()
}

/// Whether `terms` is a descending stretch of the layout of `total`
/// whose units are all of at least `floor` seconds.
spec fn shaped(terms: Seq<Term>, total: nat, floor: nat) -> bool {
    &&& descending(terms)
    &&& forall|k: int|
        0 <= k < terms.len() ==> {
            let t = #[trigger] terms[k];
            t.unit.secs() >= floor && t.quantity > 0 && t.quantity == count_of(total, t.unit)
        }
}

/// A stretch of the layout stays one when the term of a smaller unit
/// follows it.
proof fn lemma_shaped_push(terms: Seq<Term>, total: nat, unit: UnitKind, floor: nat)
    requires
        shaped(terms, total, floor),
        unit.secs() < floor,
    ensures
        shaped(terms + component(count_of(total, unit), unit), total, unit.secs()),
{
    let longer = terms + component(count_of(total, unit), unit);
    assert forall|k: int| 0 <= k < longer.len() implies {
        let t = #[trigger] longer[k];
        t.unit.secs() >= unit.secs() && t.quantity > 0 && t.quantity == count_of(total, t.unit)
    } by {
        if k < terms.len() {
            assert(longer[k] == terms[k]);
        }
    }
    assert forall|i: int, j: int| 0 <= i < j < longer.len() implies (#[trigger] longer[i]).unit.secs()
        > (#[trigger] longer[j]).unit.secs() by {
        assert(longer[i] == terms[i]);
        if j < terms.len() {
            assert(longer[j] == terms[j]);
        }
    }
}

/// The shape of the greedy layout: its units get strictly smaller from
/// term to term, no term has the count zero, each count is as many as
/// fit into what the larger units have left, and every term below the
/// year stands for less than one of the next larger unit.
pub proof fn lemma_flat_shape(total: nat)
    ensures
        descending(flat_terms(total)),
        forall|k: int|
            0 <= k < flat_terms(total).len() ==> {
                let t = #[trigger] flat_terms(total)[k];
                &&& t.quantity > 0
                &&& t.quantity == count_of(total, t.unit)
                &&& t.unit.larger() matches Some(above) ==> t.secs() < above.secs()
            },
{
    let none = Seq::<Term>::empty();
    let y = none + component(count_of(total, UnitKind::Year), UnitKind::Year);
    let mo = y + component(count_of(total, UnitKind::Month), UnitKind::Month);
    let w = mo + component(count_of(total, UnitKind::Week), UnitKind::Week);
    let d = w + component(count_of(total, UnitKind::Day), UnitKind::Day);
    let h = d + component(count_of(total, UnitKind::Hour), UnitKind::Hour);
    let mi = h + component(count_of(total, UnitKind::Minute), UnitKind::Minute);
    let sec = mi + component(count_of(total, UnitKind::Second), UnitKind::Second);
    assert(shaped(none, total, UnitKind::Year.secs() + 1));
    lemma_shaped_push(none, total, UnitKind::Year, UnitKind::Year.secs() + 1);
    lemma_shaped_push(y, total, UnitKind::Month, UnitKind::Year.secs());
    lemma_shaped_push(mo, total, UnitKind::Week, UnitKind::Month.secs());
    lemma_shaped_push(w, total, UnitKind::Day, UnitKind::Week.secs());
    lemma_shaped_push(d, total, UnitKind::Hour, UnitKind::Day.secs());
    lemma_shaped_push(h, total, UnitKind::Minute, UnitKind::Hour.secs());
    lemma_shaped_push(mi, total, UnitKind::Second, UnitKind::Minute.secs());
    assert(sec =~= flat_terms(total));
    lemma_layout(total);
    assert forall|k: int| 0 <= k < flat_terms(total).len() implies {
        let t = #[trigger] flat_terms(total)[k];
        &&& t.quantity > 0
        &&& t.quantity == count_of(total, t.unit)
        &&& t.unit.larger() matches Some(above) ==> t.secs() < above.secs()
    } by {
        let t = flat_terms(total)[k];
        assert(sec[k] == t);
        match t.unit {
            UnitKind::Year => {},
            UnitKind::Month => {},
            UnitKind::Week => {},
            UnitKind::Day => {},
            UnitKind::Hour => {},
            UnitKind::Minute => {},
            UnitKind::Second => {},
        }
    }
}

/// The shortest spellings of terms are spellings of those terms.
proof fn lemma_compact_words(terms: Seq<Term>)
    ensures
        all_valid(compact_words(terms)),
        terms_of(compact_words(terms)) == terms,
{
    let words = compact_words(terms);
    assert forall|k: int| 0 <= k < words.len() implies (#[trigger] words[k]).valid()
        && words[k].term() == terms[k] by {
        lemma_decimal_round_trip(terms[k].quantity);
        lemma_abbrev_resolves(terms[k].unit);
    }
    assert(terms_of(words) =~= terms);
}

/// The text shown for no seconds is the shortest spelling of zero
/// seconds.
proof fn lemma_format_of_zero()
    ensures
        format_of(0) == spelled(compact_words(seq![Term { quantity: 0, unit: UnitKind::Second }])),
{
    reveal_strlit("0s");
    let term = Term { quantity: 0, unit: UnitKind::Second };
    let word = Spelling::compact(term);
    assert(compact_words(seq![term]) =~= seq![word]);
    lemma_spelled_one(word);
    assert(decimal_digits(0) =~= seq!['0']);
    assert(word.text() =~= seq!['0', 's']);
    assert("0s"@ =~= seq!['0', 's']);
}

/// A shown duration reads back as itself: the text that stands for
/// `total` seconds is a phrase, and the phrase stands for `total`.
pub proof fn lemma_format_reads_back(total: nat)
    requires
        total <= MAX_SECS,
    ensures
        phrase_secs(format_of(total)) == Ok::<nat, Fault>(total),
{
    let terms = if total == 0 {
        seq![Term { quantity: 0, unit: UnitKind::Second }]
    } else {
        flat_terms(total)
    };
    let words = compact_words(terms);
    if total == 0 {
        lemma_format_of_zero();
        assert(terms.drop_last() =~= Seq::<Term>::empty());
        assert(total_secs(terms.drop_last()) == 0);
        assert(terms.last().secs() == 0) by (nonlinear_arith)
            requires
                terms.last().quantity == 0,
                terms.last().secs() == terms.last().quantity * terms.last().unit.secs(),
        ;
        assert(total_secs(terms) == 0);
    } else {
        lemma_flat_total(total);
        crate::flat::lemma_no_terms_is_zero(total);
    }
    lemma_compact_words(terms);
    lemma_phrase_spelled(words, Seq::<char>::empty());
    assert(spelled(words) + Seq::<char>::empty() =~= spelled(words));
}

/// Showing what was read and reading it again changes nothing: for
/// every phrase `text`, the text shown for its duration is a phrase of
/// the same duration. The words may differ; the seconds do not.
pub proof fn lemma_round_trip(text: Seq<char>)
    requires
        phrase_secs(text) is Ok,
    ensures
        phrase_secs(format_of(phrase_secs(text)->Ok_0)) == phrase_secs(text),
{
    lemma_format_reads_back(phrase_secs(text)->Ok_0);
}

/// Terms of one unit add up: two terms of the same unit count as one
/// term of their joint quantity.
pub proof fn lemma_same_unit_adds(terms: Seq<Term>, a: nat, b: nat, unit: UnitKind)
    ensures
        total_secs(terms.push(Term { quantity: a, unit }).push(Term { quantity: b, unit }))
            == total_secs(terms.push(Term { quantity: a + b, unit })),
        total_secs(terms.push(Term { quantity: a, unit }).push(Term { quantity: b, unit }))
            == total_secs(terms) + (a + b) * unit.secs(),
{
    let one = terms.push(Term { quantity: a, unit });
    let two = one.push(Term { quantity: b, unit });
    let joint = terms.push(Term { quantity: a + b, unit });
    let each = unit.secs();
    assert(two.drop_last() =~= one);
    assert(one.drop_last() =~= terms);
    assert(joint.drop_last() =~= terms);
    assert(total_secs(one) == total_secs(terms) + a * each);
    assert(total_secs(two) == total_secs(one) + b * each);
    assert(total_secs(joint) == total_secs(terms) + (a + b) * each);
    assert((a + b) * each == a * each + b * each) by (nonlinear_arith);
}

/// The sum is at least each of its terms.
pub proof fn lemma_total_covers(terms: Seq<Term>, k: int)
    requires
        0 <= k < terms.len(),
    ensures
        total_secs(terms) >= terms[k].secs(),
    decreases terms.len(),
{
    if k < terms.len() - 1 {
        lemma_total_covers(terms.drop_last(), k);
    }
}

/// One term that alone reaches the longest duration makes the whole sum
/// the longest duration, whatever the other terms are.
pub proof fn lemma_saturates(terms: Seq<Term>, k: int)
    requires
        0 <= k < terms.len(),
        terms[k].secs() >= MAX_SECS,
    ensures
        saturate(total_secs(terms)) == MAX_SECS,
{
    lemma_total_covers(terms, k);
}

} // verus!
