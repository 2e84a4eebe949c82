//! A duration laid out over the seven units, largest first, for display.

use crate::decimal::push_decimal;
use crate::duration::Duration;
use crate::error::Fault;
use crate::grammar::phrase_secs;
use crate::laws::lemma_format_reads_back;
use crate::spelling::{
    compact_words, lemma_spelled_concat, lemma_spelled_one, spelled, Spelling,
};
use crate::term::{ParsedTerm, Term};
use crate::unit::{
    UnitKind, DAY_SECS, HOUR_SECS, MINUTE_SECS, MONTH_SECS, WEEK_SECS, YEAR_SECS,
};
use vstd::prelude::*;
use vstd::std_specs::convert::FromSpecImpl;

verus! {

/// What is left of `total` seconds when the greedy layout reaches
/// `unit`, after every larger unit has taken its whole multiples.
pub open spec fn remaining(total: nat, unit: UnitKind) -> nat {
    let after_years = total % 31_536_000;
    let after_months = after_years % 2_592_000;
    let after_weeks = after_months % 604_800;
    let after_days = after_weeks % 86_400;
    let after_hours = after_days % 3_600;
    match unit {
        UnitKind::Year => total,
        UnitKind::Month => after_years,
        UnitKind::Week => after_months,
        UnitKind::Day => after_weeks,
        UnitKind::Hour => after_days,
        UnitKind::Minute => after_hours,
        UnitKind::Second => after_hours % 60,
    }
}

/// How many of `unit` the greedy layout of `total` seconds holds: as
/// many as fit into what the larger units have left.
pub open spec fn count_of(total: nat, unit: UnitKind) -> nat {
    match unit {
        UnitKind::Year => remaining(total, unit) / 31_536_000,
        UnitKind::Month => remaining(total, unit) / 2_592_000,
        UnitKind::Week => remaining(total, unit) / 604_800,
        UnitKind::Day => remaining(total, unit) / 86_400,
        UnitKind::Hour => remaining(total, unit) / 3_600,
        UnitKind::Minute => remaining(total, unit) / 60,
        UnitKind::Second => remaining(total, unit),
    }
}

/// Each unit takes the largest whole multiple of its length that fits
/// into what is left when the layout reaches it, and leaves the rest to
/// the next smaller unit.
pub proof fn lemma_greedy(total: nat, unit: UnitKind)
    ensures
        count_of(total, unit) == remaining(total, unit) / unit.secs(),
        count_of(total, unit) * unit.secs() <= remaining(total, unit),
        remaining(total, unit) < (count_of(total, unit) + 1) * unit.secs(),
        remaining(total, UnitKind::Year) == total,
        unit.larger() matches Some(above) ==> remaining(total, unit) == remaining(total, above)
            % above.secs(),
{
    let count = count_of(total, unit);
    match unit {
        UnitKind::Year => {
            assert(count * unit.secs() == count * 31_536_000);
            assert((count + 1) * unit.secs() == (count + 1) * 31_536_000);
        },
        UnitKind::Month => {
            assert(count * unit.secs() == count * 2_592_000);
            assert((count + 1) * unit.secs() == (count + 1) * 2_592_000);
        },
        UnitKind::Week => {
            assert(count * unit.secs() == count * 604_800);
            assert((count + 1) * unit.secs() == (count + 1) * 604_800);
        },
        UnitKind::Day => {
            assert(count * unit.secs() == count * 86_400);
            assert((count + 1) * unit.secs() == (count + 1) * 86_400);
        },
        UnitKind::Hour => {
            assert(count * unit.secs() == count * 3_600);
            assert((count + 1) * unit.secs() == (count + 1) * 3_600);
        },
        UnitKind::Minute => {
            assert(count * unit.secs() == count * 60);
            assert((count + 1) * unit.secs() == (count + 1) * 60);
        },
        UnitKind::Second => {
            assert(count * unit.secs() == count * 1);
            assert((count + 1) * unit.secs() == (count + 1) * 1);
        },
    }
}

/// The term for `count` of `unit`, or nothing where `count` is zero.
pub open spec fn component(count: nat, unit: UnitKind) -> Seq<Term> {
    if count > 0 {
        seq![Term { quantity: count, unit }]
    } else {
        Seq::empty()
    }
}

/// The greedy layout of `total` seconds: for each unit from the year
/// down to the second a term with its count, units of count zero left
/// out.
pub open spec fn flat_terms(total: nat) -> Seq<Term> {
    component(count_of(total, UnitKind::Year), UnitKind::Year)
        + component(count_of(total, UnitKind::Month), UnitKind::Month)
        + component(count_of(total, UnitKind::Week), UnitKind::Week)
        + component(count_of(total, UnitKind::Day), UnitKind::Day)
        + component(count_of(total, UnitKind::Hour), UnitKind::Hour)
        + component(count_of(total, UnitKind::Minute), UnitKind::Minute)
        + component(count_of(total, UnitKind::Second), UnitKind::Second)
}

/// The counts of the greedy layout make up the total exactly, and each
/// unit below the year holds less than one of the next larger unit.
pub proof fn lemma_layout(total: nat)
    ensures
        count_of(total, UnitKind::Year) * UnitKind::Year.secs() + count_of(total, UnitKind::Month)
            * UnitKind::Month.secs() + count_of(total, UnitKind::Week) * UnitKind::Week.secs()
            + count_of(total, UnitKind::Day) * UnitKind::Day.secs() + count_of(
            total,
            UnitKind::Hour,
        ) * UnitKind::Hour.secs() + count_of(total, UnitKind::Minute) * UnitKind::Minute.secs()
            + count_of(total, UnitKind::Second) == total,
        forall|unit: UnitKind| #[trigger] count_of(total, unit) <= total,
        count_of(total, UnitKind::Month) * UnitKind::Month.secs() < UnitKind::Year.secs(),
        count_of(total, UnitKind::Week) * UnitKind::Week.secs() < UnitKind::Month.secs(),
        count_of(total, UnitKind::Day) * UnitKind::Day.secs() < UnitKind::Week.secs(),
        count_of(total, UnitKind::Hour) * UnitKind::Hour.secs() < UnitKind::Day.secs(),
        count_of(total, UnitKind::Minute) * UnitKind::Minute.secs() < UnitKind::Hour.secs(),
        count_of(total, UnitKind::Second) * UnitKind::Second.secs() < UnitKind::Minute.secs(),
{
    lemma_greedy(total, UnitKind::Year);
    lemma_greedy(total, UnitKind::Month);
    lemma_greedy(total, UnitKind::Week);
    lemma_greedy(total, UnitKind::Day);
    lemma_greedy(total, UnitKind::Hour);
    lemma_greedy(total, UnitKind::Minute);
    lemma_greedy(total, UnitKind::Second);
    let years = count_of(total, UnitKind::Year);
    let months = count_of(total, UnitKind::Month);
    let weeks = count_of(total, UnitKind::Week);
    let days = count_of(total, UnitKind::Day);
    let hours = count_of(total, UnitKind::Hour);
    let minutes = count_of(total, UnitKind::Minute);
    assert(years * UnitKind::Year.secs() == years * 31_536_000);
    assert(months * UnitKind::Month.secs() == months * 2_592_000);
    assert(weeks * UnitKind::Week.secs() == weeks * 604_800);
    assert(days * UnitKind::Day.secs() == days * 86_400);
    assert(hours * UnitKind::Hour.secs() == hours * 3_600);
    assert(minutes * UnitKind::Minute.secs() == minutes * 60);
    assert forall|unit: UnitKind| #[trigger] count_of(total, unit) <= total by {
        match unit {
            UnitKind::Year => {},
            UnitKind::Month => {},
            UnitKind::Week => {},
            UnitKind::Day => {},
            UnitKind::Hour => {},
            UnitKind::Minute => {},
            UnitKind::Second => {},
        }
    }
}

/// The display text of `total` seconds: the terms of the greedy layout,
/// each as its count and the abbreviation of its unit, with nothing in
/// between, and `0s` for no seconds at all.
pub open spec fn format_of(total: nat) -> Seq<char> {
    if total == 0 {
        "0s"@
    } else {
        spelled(compact_words(flat_terms(total)))
    }
}

/// A duration broken down into years, months, weeks, days, hours,
/// minutes and seconds. It is made afresh from a [`Duration`] whenever
/// one is shown, and always holds the greedy layout of its total.
#[derive(Clone, Copy, Debug, PartialEq, Eq)]
pub struct FlatTime {
    years: u64,
    months: u64,
    weeks: u64,
    days: u64,
    hours: u64,
    minutes: u64,
    seconds: u64,
}

impl FlatTime {
    /// The count that this layout holds for `unit`.
    pub closed spec fn count(self, unit: UnitKind) -> nat {
        match unit {
            UnitKind::Year => self.years as nat,
            UnitKind::Month => self.months as nat,
            UnitKind::Week => self.weeks as nat,
            UnitKind::Day => self.days as nat,
            UnitKind::Hour => self.hours as nat,
            UnitKind::Minute => self.minutes as nat,
            UnitKind::Second => self.seconds as nat,
        }
    }

    /// The seconds that this layout stands for.
    pub open spec fn total(self) -> nat {
        self.count(UnitKind::Year) * UnitKind::Year.secs() + self.count(UnitKind::Month)
            * UnitKind::Month.secs() + self.count(UnitKind::Week) * UnitKind::Week.secs()
            + self.count(UnitKind::Day) * UnitKind::Day.secs() + self.count(UnitKind::Hour)
            * UnitKind::Hour.secs() + self.count(UnitKind::Minute) * UnitKind::Minute.secs()
            + self.count(UnitKind::Second)
    }

    /// Whether each unit holds as many as fit into what the larger units
    /// have left of the total.
    #[verifier::type_invariant]
    pub open spec fn greedy(self) -> bool {
        &&& self.total() <= u64::MAX
        &&& forall|unit: UnitKind| #[trigger] self.count(unit) == count_of(self.total(), unit)
    }

    /// The layout of `total` seconds.
    pub closed spec fn of_secs(total: nat) -> FlatTime {
        FlatTime {
            years: count_of(total, UnitKind::Year) as u64,
            months: count_of(total, UnitKind::Month) as u64,
            weeks: count_of(total, UnitKind::Week) as u64,
            days: count_of(total, UnitKind::Day) as u64,
            hours: count_of(total, UnitKind::Hour) as u64,
            minutes: count_of(total, UnitKind::Minute) as u64,
            seconds: count_of(total, UnitKind::Second) as u64,
        }
    }

    /// The layout of a total stands for that total and is greedy.
    pub proof fn lemma_of_secs(total: nat)
        requires
            total <= u64::MAX,
        ensures
            FlatTime::of_secs(total).total() == total,
            FlatTime::of_secs(total).greedy(),
    {
        lemma_layout(total);
        let flat = FlatTime::of_secs(total);
        assert forall|unit: UnitKind| #[trigger] flat.count(unit) == count_of(total, unit) by {
            assert(count_of(total, unit) <= total);
        }
        assert(flat.total() == total);
    }

    /// Lays `total` out over the units, largest first.
    pub fn from_duration(total: Duration) -> (flat: FlatTime)
        ensures
            flat == FlatTime::of_secs(total@),
            flat.total() == total@,
            flat.greedy(),
    {
        proof {
            total.lemma_bounded();
            FlatTime::lemma_of_secs(total@);
        }
        let secs: u64 = total.as_secs();
        let years: u64 = secs / YEAR_SECS;
        let rest: u64 = secs % YEAR_SECS;
        let months: u64 = rest / MONTH_SECS;
        let rest: u64 = rest % MONTH_SECS;
        let weeks: u64 = rest / WEEK_SECS;
        let rest: u64 = rest % WEEK_SECS;
        let days: u64 = rest / DAY_SECS;
        let rest: u64 = rest % DAY_SECS;
        let hours: u64 = rest / HOUR_SECS;
        let rest: u64 = rest % HOUR_SECS;
        let minutes: u64 = rest / MINUTE_SECS;
        let seconds: u64 = rest % MINUTE_SECS;
        FlatTime { years, months, weeks, days, hours, minutes, seconds }
    }

    /// The count held for `unit`.
    pub fn get(&self, unit: UnitKind) -> (n: u64)
        ensures
            n == self.count(unit),
            n == count_of(self.total(), unit),
    {
        proof {
            use_type_invariant(self);
        }
        match unit {
            UnitKind::Year => self.years,
            UnitKind::Month => self.months,
            UnitKind::Week => self.weeks,
            UnitKind::Day => self.days,
            UnitKind::Hour => self.hours,
            UnitKind::Minute => self.minutes,
            UnitKind::Second => self.seconds,
        }
    }

    /// The terms of this layout: one for each unit of a count above
    /// zero, from the largest unit to the smallest.
    pub fn terms(&self) -> (terms: Vec<ParsedTerm>)
        ensures
            terms.deep_view() == flat_terms(self.total()),
    {
        let mut terms: Vec<ParsedTerm> = Vec::new();
        assert(terms.deep_view() =~= Seq::<Term>::empty());
        push_component(&mut terms, self.get(UnitKind::Year), UnitKind::Year);
        push_component(&mut terms, self.get(UnitKind::Month), UnitKind::Month);
        push_component(&mut terms, self.get(UnitKind::Week), UnitKind::Week);
        push_component(&mut terms, self.get(UnitKind::Day), UnitKind::Day);
        push_component(&mut terms, self.get(UnitKind::Hour), UnitKind::Hour);
        push_component(&mut terms, self.get(UnitKind::Minute), UnitKind::Minute);
        push_component(&mut terms, self.get(UnitKind::Second), UnitKind::Second);
        assert(terms.deep_view() =~= flat_terms(self.total()));
        terms
    }

    /// The display text of this layout, such as `1w4d` or `0s`.
    ///
    /// The text shows one way to make up the total, not the words with
    /// which the duration may once have been entered.
    pub fn format(&self) -> (text: String)
        ensures
            text@ == format_of(self.total()),
    {
        let terms: Vec<ParsedTerm> = self.terms();
        proof {
            lemma_no_terms_is_zero(self.total());
        }
        if terms.len() == 0 {
            return "0s".to_owned();
        }
        let ghost all = terms.deep_view();
        let mut text: String = String::new();
        let mut k: usize = 0;
        proof {
            assert(compact_words(all.take(0)) =~= Seq::<Spelling>::empty());
        }
        while k < terms.len()
            invariant
                k <= terms.len(),
                all == terms.deep_view(),
                text@ == spelled(compact_words(all.take(k as int))),
            decreases terms.len() - k,
        {
            let term: ParsedTerm = terms[k];
            proof {
                let word = Spelling::compact(term@);
                assert(all[k as int] == term@);
                assert(compact_words(all.take(k + 1)) =~= compact_words(all.take(k as int))
                    + seq![word]);
                lemma_spelled_concat(compact_words(all.take(k as int)), seq![word]);
                lemma_spelled_one(word);
                assert(word.text() =~= word.digits.push(term.unit.abbrev()));
            }
            push_decimal(&mut text, term.quantity);
            text.append(term.unit.abbreviation());
            assert(text@ =~= spelled(compact_words(all.take(k + 1))));
            k = k + 1;
        }
        assert(all.take(k as int) =~= all);
        text
    }
}

/// Appends the term for `count` of `unit` where `count` is above zero.
fn push_component(terms: &mut Vec<ParsedTerm>, count: u64, unit: UnitKind)
    ensures
        final(terms).deep_view() == old(terms).deep_view() + component(count as nat, unit),
{
    if count > 0 {
        terms.push(ParsedTerm { quantity: count, unit });
    }
    assert(terms.deep_view() =~= old(terms).deep_view() + component(count as nat, unit));
}

/// Only the empty duration has a layout without terms.
pub proof fn lemma_no_terms_is_zero(total: nat)
    ensures
        flat_terms(total).len() == 0 <==> total == 0,
{
    lemma_layout(total);
}

impl From<Duration> for FlatTime {
    /// Lays `total` out over the units, largest first.
    fn from(total: Duration) -> (flat: FlatTime) {
        FlatTime::from_duration(total)
    }
}

impl FromSpecImpl<Duration> for FlatTime {
    open spec fn obeys_from_spec() -> bool {
        true
    }

    open spec fn from_spec(total: Duration) -> FlatTime {
        FlatTime::of_secs(total@)
    }
}

/// Shows a duration as a compact text, largest unit first: `1w4d` for
/// eleven days, `0s` for the empty duration.
///
/// Units of count zero are left out. The text states the same total as
/// the duration, in one fixed way, and reads back as that duration; how
/// the duration was once entered is not kept.
pub fn format(total: Duration) -> (text: String)
    ensures
        text@ == format_of(total@),
        phrase_secs(text@) == Ok::<nat, Fault>(total@),
{
    proof {
        total.lemma_bounded();
        lemma_format_reads_back(total@);
    }
    FlatTime::from_duration(total).format()
}

} // verus!
