//! Duration phrases for tracking recurring practices.
//!
//! A practice has a period and a running total of logged time, and both
//! are entered as phrases such as `1w4d` or `3 days 15 hours`. This
//! library reads such phrases into a [`duration::Duration`], a whole
//! number of seconds, and shows a duration as a compact text again.
//!
//! * [`grammar`] reads a phrase: [`grammar::parse`] for the duration,
//!   [`grammar::parse_terms`] for its terms.
//! * [`unit`] holds the seven units and the labels that name them, with
//!   [`unit::resolve`] for a single label.
//! * [`term`] sums terms into a duration with [`term::accumulate`].
//! * [`flat`] lays a duration out over the units, largest first, and
//!   shows it.
//! * [`dialogue`] decides what to ask a user about a [`request`] and
//!   what the request comes to.
//! * [`laws`] proves what holds of all this for every input: that a
//!   shown duration reads back as itself, that whitespace and the order
//!   of terms do not matter, and what exactly a phrase is.
//!
//! Months and years are fixed multiples of a day, thirty and 365; no
//! calendar is involved. Durations are never negative, and sums that do
//! not fit saturate at the longest duration.

pub mod decimal;
pub mod dialogue;
pub mod duration;
pub mod error;
pub mod flat;
pub mod grammar;
pub mod laws;
pub mod request;
pub mod scan;
pub mod spelling;
pub mod term;
pub mod unit;
