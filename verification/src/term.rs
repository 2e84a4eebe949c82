//! Terms, the `(quantity, unit)` pairs of a phrase, and their sum.

use crate::decimal::saturate;
use crate::duration::Duration;
use crate::unit::UnitKind;
use vstd::prelude::*;

verus! {

/// One `(quantity, unit)` pair as mathematics sees it: the quantity is
/// any natural number.
pub struct Term {
    pub quantity: nat,
    pub unit: UnitKind,
}

/// One `(quantity, unit)` pair read from a phrase. A written quantity too
/// large for `u64` is held as `u64::MAX`.
#[derive(Clone, Copy, Debug, PartialEq, Eq, Structural)]
pub struct ParsedTerm {
    pub quantity: u64,
    pub unit: UnitKind,
}

impl View for ParsedTerm {
    type V = Term;

    open spec fn view(&self) -> Term {
        Term { quantity: self.quantity as nat, unit: self.unit }
    }
}

impl DeepView for ParsedTerm {
    type V = Term;

    open spec fn deep_view(&self) -> Term {
        self@
    }
}

impl Term {
    /// The seconds that this term stands for.
    pub open spec fn secs(self) -> nat {
        self.quantity * self.unit.secs()
    }

    /// This term with its quantity cut down to what a `u64` holds.
    pub open spec fn saturated(self) -> Term {
        Term { quantity: saturate(self.quantity) as nat, unit: self.unit }
    }
}

/// The seconds that `terms` stand for together: the plain sum, in which
/// terms of one unit add up.
pub open spec fn total_secs(terms: Seq<Term>) -> nat
    decreases terms.len(),
{
    if terms.len() == 0 {
        0
    } else {
        total_secs(terms.drop_last()) + terms.last().secs()
    }
}

/// `terms` with every quantity cut down to what a `u64` holds.
pub open spec fn saturated_terms(terms: Seq<Term>) -> Seq<Term> {
    Seq::new(terms.len(), |k: int| terms[k].saturated())
}

/// Sums `terms` into one duration. Each product and the running sum
/// saturate, so the result is the exact sum or, where that does not fit,
/// the longest duration. No terms give the empty duration.
pub fn accumulate(terms: &Vec<ParsedTerm>) -> (d: Duration)
    ensures
        d@ == saturate(total_secs(terms.deep_view())),
{
    let ghost all = terms.deep_view();
    let mut sum: Duration = Duration::zero();
    let mut k: usize = 0;
    while k < terms.len()
        invariant
            k <= terms.len(),
            all == terms.deep_view(),
            sum@ == saturate(total_secs(all.take(k as int))),
        decreases terms.len() - k,
    {
        let term: ParsedTerm = terms[k];
        proof {
            assert(all.take(k + 1).drop_last() =~= all.take(k as int));
            assert(all.take(k + 1).last() == term@);
        }
        sum = sum.saturating_add(Duration::of(term.quantity, term.unit));
        k = k + 1;
    }
    assert(all.take(k as int) =~= all);
    sum
}

/// The sum of two sequences laid end to end is the sum of their sums.
pub proof fn lemma_total_concat(a: Seq<Term>, b: Seq<Term>)
    ensures
        total_secs(a + b) == total_secs(a) + total_secs(b),
    decreases b.len(),
{
    if b.len() == 0 {
        assert(a + b =~= a);
    } else {
        assert((a + b).drop_last() =~= a + b.drop_last());
        lemma_total_concat(a, b.drop_last());
    }
}

/// Taking one term out of a sequence lowers the sum by that term.
pub proof fn lemma_total_remove(terms: Seq<Term>, i: int)
    requires
        0 <= i < terms.len(),
    ensures
        total_secs(terms) == total_secs(terms.remove(i)) + terms[i].secs(),
{
    let front = terms.subrange(0, i);
    let back = terms.subrange(i + 1, terms.len() as int);
    let one = seq![terms[i]];
    assert(terms =~= front + one + back);
    assert(terms.remove(i) =~= front + back);
    lemma_total_concat(front, one);
    lemma_total_concat(front + one, back);
    lemma_total_concat(front, back);
    assert(total_secs(one) == terms[i].secs()) by {
        assert(one.drop_last() =~= Seq::<Term>::empty());
        assert(total_secs(one.drop_last()) == 0);
        assert(one.last() == terms[i]);
    }
}

/// The order of the terms does not matter: two sequences that hold the
/// same terms, each as often as the other, have the same sum.
pub proof fn lemma_total_any_order(a: Seq<Term>, b: Seq<Term>)
    requires
        a.to_multiset() == b.to_multiset(),
    ensures
        total_secs(a) == total_secs(b),
    decreases a.len(),
{
    broadcast use vstd::seq_lib::group_to_multiset_ensures;

    a.to_multiset_ensures();
    b.to_multiset_ensures();
    if a.len() == 0 {
        assert(b.len() == 0);
    } else {
        let t = a.last();
        assert(a.contains(t));
        assert(b.to_multiset().count(t) > 0);
        assert(b.contains(t));
        let j = b.index_of(t);
        assert(a.drop_last() =~= a.remove(a.len() - 1));
        assert(a.drop_last().to_multiset() =~= a.to_multiset().remove(t));
        assert(b.remove(j).to_multiset() =~= b.to_multiset().remove(t));
        lemma_total_any_order(a.drop_last(), b.remove(j));
        lemma_total_remove(b, j);
    }
}

/// Cutting the quantities down to what a `u64` holds does not change
/// the saturated sum.
pub proof fn lemma_total_saturated(terms: Seq<Term>)
    ensures
        saturate(total_secs(saturated_terms(terms))) == saturate(total_secs(terms)),
        total_secs(saturated_terms(terms)) <= total_secs(terms),
    decreases terms.len(),
{
    if terms.len() > 0 {
        let cut = saturated_terms(terms);
        assert(cut.drop_last() =~= saturated_terms(terms.drop_last()));
        lemma_total_saturated(terms.drop_last());
        let t = terms.last();
        let unit_secs = t.unit.secs();
        assert(cut.last() == t.saturated());
        assert(t.saturated().quantity * unit_secs <= t.quantity * unit_secs) by (nonlinear_arith)
            requires
                t.saturated().quantity <= t.quantity,
        ;
        if t.quantity > u64::MAX {
            assert(t.saturated().quantity * unit_secs >= u64::MAX) by (nonlinear_arith)
                requires
                    t.saturated().quantity == u64::MAX,
                    unit_secs >= 1,
            ;
        }
    }
}

} // verus!
