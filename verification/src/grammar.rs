//! The grammar of duration phrases.
//!
//! A phrase is one or more terms. A term is an unsigned decimal integer
//! followed by a unit label, a run of letters. Whitespace may stand
//! before and after the integer and between terms, but not inside an
//! integer or a label. The whole text has to be used up by terms.

use crate::decimal::{decimal_value, read_decimal, saturate};
use crate::duration::Duration;
use crate::error::{Fault, ParseError};
use crate::laws::lemma_phrases_are_read;
use crate::scan::{chars_of, lemma_run_end, run_end, scan_run, CharClass};
use crate::spelling::{is_phrase, spells, terms_of, Spelling};
use crate::term::{
    accumulate, lemma_total_saturated, saturated_terms, total_secs, ParsedTerm, Term,
};
use crate::unit::{unit_for, unit_of_label};
use vstd::prelude::*;

verus! {

/// The length of `s` without its trailing whitespace.
pub open spec fn phrase_end(s: Seq<char>) -> int
    decreases s.len(),
{
    if s.len() > 0 && CharClass::Space.contains(s.last()) {
        phrase_end(s.drop_last())
    } else {
        s.len() as int
    }
}

/// `done` followed by the terms of `rest`, or the fault of `rest`.
pub open spec fn prepend(done: Seq<Term>, rest: Result<Seq<Term>, Fault>) -> Result<
    Seq<Term>,
    Fault,
> {
    match rest {
        Ok(terms) => Ok(done + terms),
        Err(fault) => Err(fault),
    }
}

/// The terms that `s` holds from `pos` on, where `pos` is the place of a
/// character that is not whitespace. `first` says that no term stands
/// before `pos`.
///
/// The integer is the longest run of digits at `pos`, and the label the
/// longest run of letters after the whitespace that follows the integer.
/// What comes after a term and its whitespace must be another term.
pub open spec fn terms_from(s: Seq<char>, pos: int, first: bool) -> Result<Seq<Term>, Fault>
    decreases s.len() - pos,
    via terms_from_decreases
{
    let digits_end = run_end(s, pos, CharClass::Digit);
    let label_start = run_end(s, digits_end, CharClass::Space);
    let label_end = run_end(s, label_start, CharClass::Letter);
    let next = run_end(s, label_end, CharClass::Space);
    if digits_end == pos {
        if first {
            Err(Fault::MalformedInteger { position: pos, text: s.subrange(pos, phrase_end(s)) })
        } else {
            Err(Fault::TrailingContent { position: pos, text: s.subrange(pos, phrase_end(s)) })
        }
    } else if label_end == label_start {
        Err(Fault::MissingUnit { position: pos, text: s.subrange(pos, digits_end) })
    } else {
        match unit_of_label(s.subrange(label_start, label_end)) {
            None => Err(
                Fault::UnknownUnit {
                    position: label_start,
                    label: s.subrange(label_start, label_end),
                },
            ),
            Some(unit) => {
                let term = Term { quantity: decimal_value(s.subrange(pos, digits_end)), unit };
                if next >= s.len() {
                    Ok(seq![term])
                } else {
                    prepend(seq![term], terms_from(s, next, false))
                }
            },
        }
    }
}

#[via_fn]
proof fn terms_from_decreases(s: Seq<char>, pos: int, first: bool) {
    if 0 <= pos <= s.len() {
        lemma_term_bounds(s, pos);
    }
}

/// The four places that delimit a term lie in order within the text.
pub proof fn lemma_term_bounds(s: Seq<char>, pos: int)
    requires
        0 <= pos <= s.len(),
    ensures
        ({
            let digits_end = run_end(s, pos, CharClass::Digit);
            let label_start = run_end(s, digits_end, CharClass::Space);
            let label_end = run_end(s, label_start, CharClass::Letter);
            let next = run_end(s, label_end, CharClass::Space);
            pos <= digits_end <= label_start <= label_end <= next <= s.len()
        }),
{
    let digits_end = run_end(s, pos, CharClass::Digit);
    lemma_run_end(s, pos, CharClass::Digit);
    let label_start = run_end(s, digits_end, CharClass::Space);
    lemma_run_end(s, digits_end, CharClass::Space);
    let label_end = run_end(s, label_start, CharClass::Letter);
    lemma_run_end(s, label_start, CharClass::Letter);
    lemma_run_end(s, label_end, CharClass::Space);
}

/// The terms of the phrase `s`, in the order in which they are written,
/// or what is wrong with `s`.
pub open spec fn phrase_terms(s: Seq<char>) -> Result<Seq<Term>, Fault> {
    let start = run_end(s, 0, CharClass::Space);
    if start >= s.len() {
        Err(Fault::Empty)
    } else {
        terms_from(s, start, true)
    }
}

/// The seconds that the phrase `s` stands for, no more than the longest
/// duration, or what is wrong with `s`.
pub open spec fn phrase_secs(s: Seq<char>) -> Result<nat, Fault> {
    match phrase_terms(s) {
        Ok(terms) => Ok(saturate(total_secs(terms)) as nat),
        Err(fault) => Err(fault),
    }
}

/// A character that is not whitespace lies before the end of the phrase.
pub proof fn lemma_phrase_end(s: Seq<char>, pos: int)
    requires
        0 <= pos < s.len(),
        !CharClass::Space.contains(s[pos]),
    ensures
        pos < phrase_end(s) <= s.len(),
    decreases s.len(),
{
    if CharClass::Space.contains(s.last()) {
        assert(s.drop_last()[pos] == s[pos]);
        lemma_phrase_end(s.drop_last(), pos);
    }
}

/// Finds the length of `chars` without its trailing whitespace.
fn find_phrase_end(chars: &Vec<char>) -> (end: usize)
    ensures
        end == phrase_end(chars@),
        end <= chars.len(),
{
    let mut end: usize = chars.len();
    assert(chars@.take(end as int) =~= chars@);
    while end > 0 && CharClass::Space.holds(chars[end - 1])
        invariant
            end <= chars.len(),
            phrase_end(chars@) == phrase_end(chars@.take(end as int)),
        decreases end,
    {
        assert(chars@.take(end as int).drop_last() =~= chars@.take(end - 1));
        end = end - 1;
    }
    end
}

/// The text of `text[from..to]`, counted in characters.
fn excerpt(text: &str, from: usize, to: usize) -> (piece: String)
    requires
        from <= to <= text@.len(),
    ensures
        piece@ == text@.subrange(from as int, to as int),
{
    text.substring_char(from, to).to_owned()
}

/// Reads the terms of `text` one after the other.
fn read_terms(text: &str) -> (r: Result<Vec<ParsedTerm>, ParseError>)
    ensures
        match r {
            Ok(terms) => phrase_terms(text@) matches Ok(written) && terms.deep_view()
                == saturated_terms(written),
            Err(e) => phrase_terms(text@) == Err::<Seq<Term>, Fault>(e@),
        },
{
    let chars: Vec<char> = chars_of(text);
    let ghost s = chars@;
    let len: usize = chars.len();
    let start: usize = scan_run(&chars, 0, CharClass::Space);
    if start >= len {
        return Err(ParseError::Empty);
    }
    let end: usize = find_phrase_end(&chars);
    let mut terms: Vec<ParsedTerm> = Vec::new();
    let ghost mut written: Seq<Term> = Seq::empty();
    let mut pos: usize = start;
    proof {
        lemma_run_end(s, 0, CharClass::Space);
        assert(saturated_terms(written) =~= terms.deep_view());
        assert(terms_from(s, pos as int, true) == prepend(written, terms_from(s, pos as int, true)))
            by {
            match terms_from(s, pos as int, true) {
                Ok(rest) => {
                    assert(written + rest =~= rest);
                },
                Err(_) => {},
            }
        }
    }
    loop
        invariant
            s == chars@,
            s == text@,
            len == chars.len(),
            end == phrase_end(s),
            start <= pos < len,
            !CharClass::Space.contains(s[pos as int]),
            terms.len() == written.len(),
            terms.deep_view() == saturated_terms(written),
            phrase_terms(s) == prepend(written, terms_from(s, pos as int, terms.len() == 0)),
        decreases len - pos,
    {
        proof {
            lemma_term_bounds(s, pos as int);
            lemma_phrase_end(s, pos as int);
            lemma_run_end(s, pos as int, CharClass::Digit);
        }
        let digits_end: usize = scan_run(&chars, pos, CharClass::Digit);
        if digits_end == pos {
            let piece: String = excerpt(text, pos, end);
            if terms.len() == 0 {
                return Err(ParseError::MalformedInteger { position: pos, text: piece });
            } else {
                return Err(ParseError::TrailingContent { position: pos, text: piece });
            }
        }
        let label_start: usize = scan_run(&chars, digits_end, CharClass::Space);
        let label_end: usize = scan_run(&chars, label_start, CharClass::Letter);
        if label_end == label_start {
            let piece: String = excerpt(text, pos, digits_end);
            return Err(ParseError::MissingUnit { position: pos, text: piece });
        }
        let unit = match unit_for(&chars, label_start, label_end) {
            Some(unit) => unit,
            None => {
                let piece: String = excerpt(text, label_start, label_end);
                return Err(ParseError::UnknownUnit { position: label_start, label: piece });
            },
        };
        let quantity: u64 = read_decimal(&chars, pos, digits_end);
        let next: usize = scan_run(&chars, label_end, CharClass::Space);
        let ghost term = Term { quantity: decimal_value(s.subrange(pos as int, digits_end as int)), unit };
        let ghost before = written;
        let ghost rest = terms_from(s, pos as int, terms.len() == 0);
        let ghost held = terms@;
        let ghost held_deep = terms.deep_view();
        terms.push(ParsedTerm { quantity, unit });
        proof {
            written = before.push(term);
            assert forall|k: int| 0 <= k < terms@.len() implies terms.deep_view()[k]
                == saturated_terms(written)[k] by {
                if k < held.len() {
                    assert(terms@[k] == held[k]);
                    assert(held_deep[k] == held[k].deep_view());
                    assert(saturated_terms(before)[k] == before[k].saturated());
                }
            }
            assert(terms.deep_view() =~= saturated_terms(written));
            if next >= len {
                assert(rest == Ok::<Seq<Term>, Fault>(seq![term]));
                assert(before + seq![term] =~= written);
            } else {
                lemma_run_end(s, label_end as int, CharClass::Space);
                let tail = terms_from(s, next as int, false);
                assert(rest == prepend(seq![term], tail));
                match tail {
                    Ok(more) => {
                        assert(before + (seq![term] + more) =~= written + more);
                    },
                    Err(_) => {},
                }
            }
        }
        if next >= len {
            return Ok(terms);
        }
        pos = next;
    }
}

/// Splits a phrase into its terms.
///
/// The text is read with success exactly where it is a phrase: one or
/// more terms, each an unsigned decimal integer and a unit label, with
/// whitespace allowed before and after each integer and at the end. The
/// terms come in the order in which they are written, and there is at
/// least one. A quantity too
/// large for `u64` is held as `u64::MAX`. A text that is not a phrase is
/// refused with the place and the text of what is wrong; nothing is ever
/// dropped in silence.
pub fn parse_terms(text: &str) -> (r: Result<Vec<ParsedTerm>, ParseError>)
    ensures
        r is Ok <==> is_phrase(text@),
        r matches Ok(terms) ==> terms.len() >= 1,
        forall|words: Seq<Spelling>, tail: Seq<char>| #[trigger]
            spells(words, tail, text@) ==> (r matches Ok(terms) && terms.deep_view()
                == saturated_terms(terms_of(words))),
        match r {
            Ok(terms) => phrase_terms(text@) matches Ok(written) && terms.deep_view()
                == saturated_terms(written),
            Err(e) => phrase_terms(text@) == Err::<Seq<Term>, Fault>(e@),
        },
{
    let r = read_terms(text);
    proof {
        lemma_phrases_are_read(text@);
        if r is Ok {
            let (words, tail) = choose|words: Seq<Spelling>, tail: Seq<char>| #[trigger]
                spells(words, tail, text@);
            assert(r->Ok_0.deep_view().len() == words.len());
        }
    }
    r
}

/// Reads a duration phrase such as `1w4d` or `3 days 15 hours`.
///
/// The text is read with success exactly where it is a phrase, and the
/// result is the sum of the terms of the phrase: terms of one unit add
/// up, and their order does not matter. Where the sum does not fit the
/// result is the longest duration, never an error and never a wrapped
/// value. A text that is not a phrase is refused as a whole, with the
/// place and the text of what is wrong.
pub fn parse(text: &str) -> (r: Result<Duration, ParseError>)
    ensures
        r is Ok <==> is_phrase(text@),
        forall|words: Seq<Spelling>, tail: Seq<char>| #[trigger]
            spells(words, tail, text@) ==> (r matches Ok(d) && d@ == saturate(
                total_secs(terms_of(words)),
            )),
        match r {
            Ok(d) => phrase_secs(text@) == Ok::<nat, Fault>(d@),
            Err(e) => phrase_secs(text@) == Err::<nat, Fault>(e@),
        },
{
    proof {
        lemma_phrases_are_read(text@);
    }
    match read_terms(text) {
        Ok(terms) => {
            proof {
                lemma_total_saturated(phrase_terms(text@)->Ok_0);
            }
            Ok(accumulate(&terms))
        },
        Err(e) => Err(e),
    }
}

} // verus!
