//! What can be wrong with a duration phrase or a unit label.

use vstd::prelude::*;

verus! {

/// A unit label that names no unit.
#[derive(Debug, PartialEq, Eq)]
pub struct UnitError {
    /// The label as it was written.
    pub label: String,
}

/// Why a text is not a duration phrase.
#[derive(Debug, PartialEq, Eq)]
pub enum ParseError {
    /// The text is empty or holds nothing but whitespace: no terms found.
    Empty,
    /// The phrase does not begin with an unsigned decimal integer.
    /// `position` counts characters from the start of the text, and
    /// `text` is the phrase from there on, without trailing whitespace.
    MalformedInteger { position: usize, text: String },
    /// The integer that starts at `position` and reads `text` is not
    /// followed by a unit label.
    MissingUnit { position: usize, text: String },
    /// The label at `position` names no unit.
    UnknownUnit { position: usize, label: String },
    /// After at least one complete term, what starts at `position` is not
    /// another term. `text` is the leftover, without trailing whitespace.
    TrailingContent { position: usize, text: String },
}

/// The mathematical content of a [`ParseError`].
pub enum Fault {
    Empty,
    MalformedInteger { position: int, text: Seq<char> },
    MissingUnit { position: int, text: Seq<char> },
    UnknownUnit { position: int, label: Seq<char> },
    TrailingContent { position: int, text: Seq<char> },
}

impl View for ParseError {
    type V = Fault;

    open spec fn view(&self) -> Fault {
        match *self {
            ParseError::Empty => Fault::Empty,
            ParseError::MalformedInteger { position, text } => Fault::MalformedInteger {
                position: position as int,
                text: text@,
            },
            ParseError::MissingUnit { position, text } => Fault::MissingUnit {
                position: position as int,
                text: text@,
            },
            ParseError::UnknownUnit { position, label } => Fault::UnknownUnit {
                position: position as int,
                label: label@,
            },
            ParseError::TrailingContent { position, text } => Fault::TrailingContent {
                position: position as int,
                text: text@,
            },
        }
    }
}

} // verus!
