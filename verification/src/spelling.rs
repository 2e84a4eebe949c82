//! How terms are written down: the pieces of text that make up a phrase.

use crate::decimal::{decimal_digits, decimal_value};
use crate::scan::{all_in, CharClass};
use crate::term::Term;
use crate::unit::unit_of_label;
use vstd::prelude::*;

verus! {

/// One term as it is written: whitespace, an integer, whitespace, and a
/// unit label.
pub struct Spelling {
    /// The whitespace before the integer.
    pub lead: Seq<char>,
    /// The digits of the integer.
    pub digits: Seq<char>,
    /// The whitespace between the integer and the label.
    pub gap: Seq<char>,
    /// The unit label.
    pub label: Seq<char>,
}

impl Spelling {
    /// Whether this is the spelling of a term: both stretches of
    /// whitespace hold whitespace only, the integer has at least one
    /// digit and digits only, and the label has at least one letter,
    /// letters only, and names a unit.
    pub open spec fn valid(self) -> bool {
        &&& all_in(self.lead, CharClass::Space)
        &&& self.digits.len() > 0
        &&& all_in(self.digits, CharClass::Digit)
        &&& all_in(self.gap, CharClass::Space)
        &&& self.label.len() > 0
        &&& all_in(self.label, CharClass::Letter)
        &&& unit_of_label(self.label) is Some
    }

    /// The integer, the whitespace after it, and the label.
    pub open spec fn body(self) -> Seq<char> {
        self.digits + self.gap + self.label
    }

    /// The whole text of the term.
    pub open spec fn text(self) -> Seq<char> {
        self.lead + self.body()
    }

    /// The term that is spelled.
    pub open spec fn term(self) -> Term {
        Term { quantity: decimal_value(self.digits), unit: unit_of_label(self.label)->Some_0 }
    }

    /// The shortest spelling of `term`: the numeral of its quantity and
    /// the abbreviation of its unit, with no whitespace.
    pub open spec fn compact(term: Term) -> Spelling {
        Spelling {
            lead: Seq::empty(),
            digits: decimal_digits(term.quantity),
            gap: Seq::empty(),
            label: seq![term.unit.abbrev()],
        }
    }
}

/// The texts of `words`, one after the other.
pub open spec fn spelled(words: Seq<Spelling>) -> Seq<char>
    decreases words.len(),
{
    if words.len() == 0 {
        Seq::empty()
    } else {
        words.first().text() + spelled(words.drop_first())
    }
}

/// Whether every spelling in `words` is the spelling of a term.
pub open spec fn all_valid(words: Seq<Spelling>) -> bool {
    forall|k: int| 0 <= k < words.len() ==> (#[trigger] words[k]).valid()
}

/// Whether `text` is put together from the spellings `words`, at least
/// one and each of a term, followed by the whitespace `tail`.
pub open spec fn spells(words: Seq<Spelling>, tail: Seq<char>, text: Seq<char>) -> bool {
    &&& words.len() > 0
    &&& all_valid(words)
    &&& all_in(tail, CharClass::Space)
    &&& text == spelled(words) + tail
}

/// Whether `text` is a phrase: one or more terms, each an integer and
/// a unit label, with whitespace allowed before and after each integer
/// and at the end.
pub open spec fn is_phrase(text: Seq<char>) -> bool {
    exists|words: Seq<Spelling>, tail: Seq<char>| #[trigger] spells(words, tail, text)
}

/// The terms that `words` spell, in their order.
pub open spec fn terms_of(words: Seq<Spelling>) -> Seq<Term> {
    Seq::new(words.len(), |k: int| words[k].term())
}

/// The shortest spellings of `terms`, in their order.
pub open spec fn compact_words(terms: Seq<Term>) -> Seq<Spelling> {
    Seq::new(terms.len(), |k: int| Spelling::compact(terms[k]))
}

/// The text of two sequences of spellings laid end to end is the text
/// of the first followed by the text of the second.
pub proof fn lemma_spelled_concat(a: Seq<Spelling>, b: Seq<Spelling>)
    ensures
        spelled(a + b) == spelled(a) + spelled(b),
    decreases a.len(),
{
    if a.len() == 0 {
        assert(a + b =~= b);
        assert(spelled(a) + spelled(b) =~= spelled(b));
    } else {
        assert((a + b).drop_first() =~= a.drop_first() + b);
        assert((a + b).first() == a.first());
        lemma_spelled_concat(a.drop_first(), b);
        assert(spelled(a + b) =~= spelled(a) + spelled(b));
    }
}

/// The text of a single spelling.
pub proof fn lemma_spelled_one(word: Spelling)
    ensures
        spelled(seq![word]) == word.text(),
{
    let one = seq![word];
    assert(one.drop_first() =~= Seq::<Spelling>::empty());
    assert(spelled(one.drop_first()) =~= Seq::<char>::empty());
    assert(one.first() == word);
    assert(spelled(one) =~= word.text());
}

} // verus!
