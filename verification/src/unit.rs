//! The seven canonical units of time, their fixed lengths in seconds, and
//! the labels by which a phrase may name them.

use crate::error::UnitError;
use crate::scan::{all_in, chars_of, CharClass};
use vstd::prelude::*;

verus! {

/// Seconds in one minute.
pub const MINUTE_SECS: u64 = 60;

/// Seconds in one hour.
pub const HOUR_SECS: u64 = 3_600;

/// Seconds in one day.
pub const DAY_SECS: u64 = 86_400;

/// Seconds in one week of seven days.
pub const WEEK_SECS: u64 = 604_800;

/// Seconds in one month, taken as thirty days.
pub const MONTH_SECS: u64 = 2_592_000;

/// Seconds in one year, taken as 365 days.
pub const YEAR_SECS: u64 = 31_536_000;

/// A canonical unit of time.
#[derive(Clone, Copy, Debug, PartialEq, Eq, Structural)]
pub enum UnitKind {
    Second,
    Minute,
    Hour,
    Day,
    Week,
    Month,
    Year,
}

impl UnitKind {
    /// The fixed number of seconds that one of this unit stands for.
    /// Months and years are fixed multiples of a day, not calendar spans.
    pub open spec fn secs(self) -> nat {
        match self {
            UnitKind::Second => 1,
            UnitKind::Minute => 60,
            UnitKind::Hour => 3_600,
            UnitKind::Day => 86_400,
            UnitKind::Week => 7 * 86_400,
            UnitKind::Month => 30 * 86_400,
            UnitKind::Year => 365 * 86_400,
        }
    }

    /// The one-letter abbreviation under which a formatted duration
    /// shows this unit.
    pub open spec fn abbrev(self) -> char {
        match self {
            UnitKind::Second => 's',
            UnitKind::Minute => 'm',
            UnitKind::Hour => 'h',
            UnitKind::Day => 'd',
            UnitKind::Week => 'w',
            UnitKind::Month => 'M',
            UnitKind::Year => 'y',
        }
    }

    /// The next larger unit, where there is one.
    pub open spec fn larger(self) -> Option<UnitKind> {
        match self {
            UnitKind::Second => Some(UnitKind::Minute),
            UnitKind::Minute => Some(UnitKind::Hour),
            UnitKind::Hour => Some(UnitKind::Day),
            UnitKind::Day => Some(UnitKind::Week),
            UnitKind::Week => Some(UnitKind::Month),
            UnitKind::Month => Some(UnitKind::Year),
            UnitKind::Year => None,
        }
    }

    /// The number of seconds in one of this unit.
    pub fn seconds(self) -> (n: u64)
        ensures
            n == self.secs(),
    {
        match self {
            UnitKind::Second => 1,
            UnitKind::Minute => MINUTE_SECS,
            UnitKind::Hour => HOUR_SECS,
            UnitKind::Day => DAY_SECS,
            UnitKind::Week => WEEK_SECS,
            UnitKind::Month => MONTH_SECS,
            UnitKind::Year => YEAR_SECS,
        }
    }

    /// The abbreviation of this unit as a text of one letter.
    pub fn abbreviation(self) -> (t: &'static str)
        ensures
            t@ == seq![self.abbrev()],
    {
        proof {
            reveal_strlit("s");
            reveal_strlit("m");
            reveal_strlit("h");
            reveal_strlit("d");
            reveal_strlit("w");
            reveal_strlit("M");
            reveal_strlit("y");
        }
        let t: &'static str = match self {
            UnitKind::Second => "s",
            UnitKind::Minute => "m",
            UnitKind::Hour => "h",
            UnitKind::Day => "d",
            UnitKind::Week => "w",
            UnitKind::Month => "M",
            UnitKind::Year => "y",
        };
        assert(t@ =~= seq![self.abbrev()]);
        t
    }
}

/// `c` in lower case where it is an unaccented capital letter, and `c`
/// itself otherwise.
pub open spec fn fold_case(c: char) -> char {
    if 'A' <= c && c <= 'Z' {
        (c as int + 32) as char
    } else {
        c
    }
}

/// `label` with every unaccented capital letter in lower case.
pub open spec fn folded(label: Seq<char>) -> Seq<char> {
    Seq::new(label.len(), |k: int| fold_case(label[k]))
}

/// The unit that the lower-case word `word` names: the full word, its
/// plural, or a common abbreviation.
pub open spec fn unit_of_word(word: Seq<char>) -> Option<UnitKind> {
    if word == "s"@ || word == "sec"@ || word == "second"@ || word == "seconds"@ {
        Some(UnitKind::Second)
    } else if word == "min"@ || word == "minute"@ || word == "minutes"@ {
        Some(UnitKind::Minute)
    } else if word == "h"@ || word == "hr"@ || word == "hour"@ || word == "hours"@ {
        Some(UnitKind::Hour)
    } else if word == "d"@ || word == "day"@ || word == "days"@ {
        Some(UnitKind::Day)
    } else if word == "w"@ || word == "week"@ || word == "weeks"@ {
        Some(UnitKind::Week)
    } else if word == "month"@ || word == "months"@ {
        Some(UnitKind::Month)
    } else if word == "y"@ || word == "year"@ || word == "years"@ {
        Some(UnitKind::Year)
    } else {
        None
    }
}

/// The unit that `label` names, if any. The single letters `m` and `M`
/// are read as written, `m` for the minute and `M` for the month; every
/// other label is read without regard to case.
pub open spec fn unit_of_label(label: Seq<char>) -> Option<UnitKind> {
    if label == "m"@ {
        Some(UnitKind::Minute)
    } else if label == "M"@ {
        Some(UnitKind::Month)
    } else {
        unit_of_word(folded(label))
    }
}

/// Whether `chars[from..to]` spells `word`: as written where `exact` is
/// set, without regard to case otherwise.
fn reads_as(chars: &Vec<char>, from: usize, to: usize, word: &str, exact: bool) -> (b: bool)
    requires
        from <= to <= chars.len(),
        all_in(word@, CharClass::Letter),
        !exact ==> forall|k: int| 0 <= k < word@.len() ==> 'a' <= #[trigger] word@[k],
    ensures
        b == if exact {
            chars@.subrange(from as int, to as int) == word@
        } else {
            folded(chars@.subrange(from as int, to as int)) == word@
        },
{
    let ghost label = chars@.subrange(from as int, to as int);
    let n: usize = word.unicode_len();
    if n != to - from {
        return false;
    }
    let mut k: usize = 0;
    while k < n
        invariant
            from <= to <= chars.len(),
            n == to - from,
            n == word@.len(),
            k <= n,
            label == chars@.subrange(from as int, to as int),
            all_in(word@, CharClass::Letter),
            !exact ==> forall|j: int| 0 <= j < word@.len() ==> 'a' <= #[trigger] word@[j],
            exact ==> label.take(k as int) == word@.take(k as int),
            !exact ==> folded(label).take(k as int) == word@.take(k as int),
        decreases n - k,
    {
        let w: char = word.get_char(k);
        let c: char = chars[from + k];
        assert(label[k as int] == c);
        assert(CharClass::Letter.contains(word@[k as int]));
        let same: bool = if exact {
            c == w
        } else {
            c == w || ('A' <= c && c <= 'Z' && c as u32 + 32 == w as u32)
        };
        if !same {
            proof {
                if exact {
                    assert(label[k as int] != word@[k as int]);
                } else {
                    assert(folded(label)[k as int] != word@[k as int]);
                }
            }
            return false;
        }
        proof {
            if exact {
                assert(label.take(k + 1) =~= label.take(k as int).push(c));
                assert(word@.take(k + 1) =~= word@.take(k as int).push(w));
            } else {
                assert(folded(label)[k as int] == w);
                assert(folded(label).take(k + 1) =~= folded(label).take(k as int).push(w));
                assert(word@.take(k + 1) =~= word@.take(k as int).push(w));
            }
        }
        k = k + 1;
    }
    proof {
        assert(label.take(n as int) =~= label);
        assert(folded(label).take(n as int) =~= folded(label));
        assert(word@.take(n as int) =~= word@);
    }
    true
}

/// Spells out, letter by letter, the labels that the alias table holds.
pub proof fn lemma_alias_spellings()
    ensures
        "s"@ == seq!['s'],
        "sec"@ == seq!['s', 'e', 'c'],
        "second"@ == seq!['s', 'e', 'c', 'o', 'n', 'd'],
        "seconds"@ == seq!['s', 'e', 'c', 'o', 'n', 'd', 's'],
        "m"@ == seq!['m'],
        "min"@ == seq!['m', 'i', 'n'],
        "minute"@ == seq!['m', 'i', 'n', 'u', 't', 'e'],
        "minutes"@ == seq!['m', 'i', 'n', 'u', 't', 'e', 's'],
        "h"@ == seq!['h'],
        "hr"@ == seq!['h', 'r'],
        "hour"@ == seq!['h', 'o', 'u', 'r'],
        "hours"@ == seq!['h', 'o', 'u', 'r', 's'],
        "d"@ == seq!['d'],
        "day"@ == seq!['d', 'a', 'y'],
        "days"@ == seq!['d', 'a', 'y', 's'],
        "w"@ == seq!['w'],
        "week"@ == seq!['w', 'e', 'e', 'k'],
        "weeks"@ == seq!['w', 'e', 'e', 'k', 's'],
        "M"@ == seq!['M'],
        "month"@ == seq!['m', 'o', 'n', 't', 'h'],
        "months"@ == seq!['m', 'o', 'n', 't', 'h', 's'],
        "y"@ == seq!['y'],
        "year"@ == seq!['y', 'e', 'a', 'r'],
        "years"@ == seq!['y', 'e', 'a', 'r', 's'],
{
    reveal_strlit("s");
    reveal_strlit("sec");
    reveal_strlit("second");
    reveal_strlit("seconds");
    reveal_strlit("m");
    reveal_strlit("min");
    reveal_strlit("minute");
    reveal_strlit("minutes");
    reveal_strlit("h");
    reveal_strlit("hr");
    reveal_strlit("hour");
    reveal_strlit("hours");
    reveal_strlit("d");
    reveal_strlit("day");
    reveal_strlit("days");
    reveal_strlit("w");
    reveal_strlit("week");
    reveal_strlit("weeks");
    reveal_strlit("M");
    reveal_strlit("month");
    reveal_strlit("months");
    reveal_strlit("y");
    reveal_strlit("year");
    reveal_strlit("years");
}

/// The unit that the label at `from..to` of `chars` names, if any.
pub fn unit_for(chars: &Vec<char>, from: usize, to: usize) -> (unit: Option<UnitKind>)
    requires
        from <= to <= chars.len(),
    ensures
        unit == unit_of_label(chars@.subrange(from as int, to as int)),
{
    proof {
        lemma_alias_spellings();
    }
    if reads_as(chars, from, to, "m", true) {
        Some(UnitKind::Minute)
    } else if reads_as(chars, from, to, "M", true) {
        Some(UnitKind::Month)
    } else if reads_as(chars, from, to, "s", false)
        || reads_as(chars, from, to, "sec", false)
        || reads_as(chars, from, to, "second", false)
        || reads_as(chars, from, to, "seconds", false) {
        Some(UnitKind::Second)
    } else if reads_as(chars, from, to, "min", false)
        || reads_as(chars, from, to, "minute", false)
        || reads_as(chars, from, to, "minutes", false) {
        Some(UnitKind::Minute)
    } else if reads_as(chars, from, to, "h", false)
        || reads_as(chars, from, to, "hr", false)
        || reads_as(chars, from, to, "hour", false)
        || reads_as(chars, from, to, "hours", false) {
        Some(UnitKind::Hour)
    } else if reads_as(chars, from, to, "d", false)
        || reads_as(chars, from, to, "day", false)
        || reads_as(chars, from, to, "days", false) {
        Some(UnitKind::Day)
    } else if reads_as(chars, from, to, "w", false)
        || reads_as(chars, from, to, "week", false)
        || reads_as(chars, from, to, "weeks", false) {
        Some(UnitKind::Week)
    } else if reads_as(chars, from, to, "month", false)
        || reads_as(chars, from, to, "months", false) {
        Some(UnitKind::Month)
    } else if reads_as(chars, from, to, "y", false)
        || reads_as(chars, from, to, "year", false)
        || reads_as(chars, from, to, "years", false) {
        Some(UnitKind::Year)
    } else {
        None
    }
}

/// Resolves a unit label to the unit that it names.
///
/// Labels are matched without regard to case, with one exception: the
/// single letter `m` is always the minute and the single letter `M` is
/// always the month. A label that names no unit is handed back in the
/// error.
pub fn resolve(label: &str) -> (r: Result<UnitKind, UnitError>)
    ensures
        match r {
            Ok(unit) => unit_of_label(label@) == Some(unit),
            Err(e) => unit_of_label(label@) is None && e.label@ == label@,
        },
{
    let chars: Vec<char> = chars_of(label);
    assert(chars@.subrange(0, chars@.len() as int) =~= label@);
    match unit_for(&chars, 0, chars.len()) {
        Some(unit) => Ok(unit),
        None => Err(UnitError { label: label.to_owned() }),
    }
}

/// The abbreviation under which a unit is shown is a label that names
/// that unit.
pub proof fn lemma_abbrev_resolves(unit: UnitKind)
    ensures
        all_in(seq![unit.abbrev()], CharClass::Letter),
        unit_of_label(seq![unit.abbrev()]) == Some(unit),
{
    lemma_alias_spellings();
    let label = seq![unit.abbrev()];
    assert(folded(label) =~= seq![fold_case(unit.abbrev())]);
    assert(label.len() == 1);
    assert(label[0] == unit.abbrev());
}

} // verus!
