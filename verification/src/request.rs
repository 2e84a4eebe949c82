//! What a user can ask for, what has to be asked back, and what is to be
//! done in the end.

use crate::duration::Duration;
use crate::error::{Fault, ParseError};
use vstd::prelude::*;

verus! {

/// The settings that a user can change.
#[derive(Clone, Copy, Debug, PartialEq, Eq, Structural)]
pub struct UserConfig {
    /// How long after the end of a period a practice still counts as
    /// done in time.
    pub grace_period: Duration,
}

/// A request as it was entered. Where `interactive` is set, what the
/// request needs is asked for and what was entered with it is ignored;
/// where it is not set, what is missing is an error.
#[derive(Debug, PartialEq, Eq)]
#[allow(inconsistent_fields)]
pub enum SubCommand {
    List { cumulative: bool, period: bool, danger: bool },
    Add { name: Option<String>, period: Option<Duration>, interactive: bool },
    Log { name: Option<String>, time: Option<Duration>, interactive: bool },
    Notes { name: Option<String>, new_notes: Option<String>, interactive: bool },
    Reset,
    StateLocation,
    EditPeriod { name: Option<String>, period: Option<Duration>, interactive: bool },
    Remove { name: Option<String>, interactive: bool },
    Rename { current_name: Option<String>, new_name: Option<String>, interactive: bool },
    Config { grace_period: Option<Duration>, interactive: bool },
}

/// A change to the state of the practices.
#[derive(Debug, PartialEq, Eq)]
pub enum StateTransition {
    Add { name: String, period: Duration },
    Log { name: String, time: Duration },
    Notes { name: String, notes: String },
    Reset,
    EditPeriod { name: String, new_period: Duration },
    Remove { name: String },
    Rename { current_name: String, new_name: String },
    Config { new_config: UserConfig },
}

/// Something to ask the user.
#[derive(Debug, PartialEq, Eq)]
pub enum Question {
    /// Ask for a line of text that is not empty.
    Text { message: String },
    /// Ask for a duration phrase.
    Span { message: String },
    /// Let the user pick one of the practices by name.
    PickName,
    /// Let the user edit the notes of the practice `name`.
    EditNotes { name: String },
    /// Ask for a yes or a no.
    Confirm { message: String },
}

/// What the user answered.
#[derive(Debug, PartialEq, Eq)]
pub enum Reply {
    /// The text that was entered, picked or edited.
    Text(String),
    /// The yes or no.
    Choice(bool),
}

/// What a request comes to once nothing is left to ask.
#[derive(Debug, PartialEq, Eq)]
pub enum Outcome {
    /// Change the state.
    Apply(StateTransition),
    /// Show the practices.
    List { cumulative: bool, period: bool, danger: bool },
    /// Show where the state is kept.
    StateLocation,
}

/// Why a request cannot be carried out.
#[derive(Debug, PartialEq, Eq)]
pub enum RequestError {
    /// No practice name provided.
    NoName,
    /// No period provided.
    NoPeriod,
    /// No time provided.
    NoTime,
    /// No notes provided.
    NoNotes,
    /// No current practice name provided.
    NoCurrentName,
    /// No new practice name provided.
    NoNewName,
    /// What was entered as a duration is not a phrase.
    Span(ParseError),
    /// The user said no.
    Aborted,
    /// The settings cannot be changed by questions and answers.
    Unsupported,
    /// A reply is not of the kind that its question asks for.
    UnexpectedReply,
}

/// The next thing to do about a request.
#[derive(Debug, PartialEq, Eq)]
pub enum Step {
    /// Put the question to the user and come back with the reply.
    Ask(Question),
    /// Nothing is left to ask.
    Done(Outcome),
    /// Give up.
    Fail(RequestError),
}

/// The mathematical content of a [`SubCommand`]: texts as sequences of
/// characters, durations as seconds.
#[allow(inconsistent_fields)]
pub enum SubCommandView {
    List { cumulative: bool, period: bool, danger: bool },
    Add { name: Option<Seq<char>>, period: Option<nat>, interactive: bool },
    Log { name: Option<Seq<char>>, time: Option<nat>, interactive: bool },
    Notes { name: Option<Seq<char>>, new_notes: Option<Seq<char>>, interactive: bool },
    Reset,
    StateLocation,
    EditPeriod { name: Option<Seq<char>>, period: Option<nat>, interactive: bool },
    Remove { name: Option<Seq<char>>, interactive: bool },
    Rename { current_name: Option<Seq<char>>, new_name: Option<Seq<char>>, interactive: bool },
    Config { grace_period: Option<nat>, interactive: bool },
}

/// The mathematical content of a [`StateTransition`].
pub enum StateTransitionView {
    Add { name: Seq<char>, period: nat },
    Log { name: Seq<char>, time: nat },
    Notes { name: Seq<char>, notes: Seq<char> },
    Reset,
    EditPeriod { name: Seq<char>, new_period: nat },
    Remove { name: Seq<char> },
    Rename { current_name: Seq<char>, new_name: Seq<char> },
    Config { grace_period: nat },
}

/// The mathematical content of a [`Question`].
pub enum QuestionView {
    Text { message: Seq<char> },
    Span { message: Seq<char> },
    PickName,
    EditNotes { name: Seq<char> },
    Confirm { message: Seq<char> },
}

/// The mathematical content of a [`Reply`].
pub enum ReplyView {
    Text(Seq<char>),
    Choice(bool),
}

/// The mathematical content of an [`Outcome`].
pub enum OutcomeView {
    Apply(StateTransitionView),
    List { cumulative: bool, period: bool, danger: bool },
    StateLocation,
}

/// The mathematical content of a [`RequestError`].
pub enum RequestFault {
    NoName,
    NoPeriod,
    NoTime,
    NoNotes,
    NoCurrentName,
    NoNewName,
    Span(Fault),
    Aborted,
    Unsupported,
    UnexpectedReply,
}

/// The mathematical content of a [`Step`].
pub enum StepView {
    Ask(QuestionView),
    Done(OutcomeView),
    Fail(RequestFault),
}

/// The characters of a text that may be missing.
pub open spec fn text_view(text: Option<String>) -> Option<Seq<char>> {
    match text {
        Some(t) => Some(t@),
        None => None,
    }
}

/// The seconds of a duration that may be missing.
pub open spec fn span_view(span: Option<Duration>) -> Option<nat> {
    match span {
        Some(d) => Some(d@),
        None => None,
    }
}

impl View for SubCommand {
    type V = SubCommandView;

    open spec fn view(&self) -> SubCommandView {
        match *self {
            SubCommand::List { cumulative, period, danger } => SubCommandView::List {
                cumulative,
                period,
                danger,
            },
            SubCommand::Add { name, period, interactive } => SubCommandView::Add {
                name: text_view(name),
                period: span_view(period),
                interactive,
            },
            SubCommand::Log { name, time, interactive } => SubCommandView::Log {
                name: text_view(name),
                time: span_view(time),
                interactive,
            },
            SubCommand::Notes { name, new_notes, interactive } => SubCommandView::Notes {
                name: text_view(name),
                new_notes: text_view(new_notes),
                interactive,
            },
            SubCommand::Reset => SubCommandView::Reset,
            SubCommand::StateLocation => SubCommandView::StateLocation,
            SubCommand::EditPeriod { name, period, interactive } => SubCommandView::EditPeriod {
                name: text_view(name),
                period: span_view(period),
                interactive,
            },
            SubCommand::Remove { name, interactive } => SubCommandView::Remove {
                name: text_view(name),
                interactive,
            },
            SubCommand::Rename { current_name, new_name, interactive } => SubCommandView::Rename {
                current_name: text_view(current_name),
                new_name: text_view(new_name),
                interactive,
            },
            SubCommand::Config { grace_period, interactive } => SubCommandView::Config {
                grace_period: span_view(grace_period),
                interactive,
            },
        }
    }
}

impl View for StateTransition {
    type V = StateTransitionView;

    open spec fn view(&self) -> StateTransitionView {
        match *self {
            StateTransition::Add { name, period } => StateTransitionView::Add {
                name: name@,
                period: period@,
            },
            StateTransition::Log { name, time } => StateTransitionView::Log {
                name: name@,
                time: time@,
            },
            StateTransition::Notes { name, notes } => StateTransitionView::Notes {
                name: name@,
                notes: notes@,
            },
            StateTransition::Reset => StateTransitionView::Reset,
            StateTransition::EditPeriod { name, new_period } => StateTransitionView::EditPeriod {
                name: name@,
                new_period: new_period@,
            },
            StateTransition::Remove { name } => StateTransitionView::Remove { name: name@ },
            StateTransition::Rename { current_name, new_name } => StateTransitionView::Rename {
                current_name: current_name@,
                new_name: new_name@,
            },
            StateTransition::Config { new_config } => StateTransitionView::Config {
                grace_period: new_config.grace_period@,
            },
        }
    }
}

impl View for Question {
    type V = QuestionView;

    open spec fn view(&self) -> QuestionView {
        match *self {
            Question::Text { message } => QuestionView::Text { message: message@ },
            Question::Span { message } => QuestionView::Span { message: message@ },
            Question::PickName => QuestionView::PickName,
            Question::EditNotes { name } => QuestionView::EditNotes { name: name@ },
            Question::Confirm { message } => QuestionView::Confirm { message: message@ },
        }
    }
}

impl View for Reply {
    type V = ReplyView;

    open spec fn view(&self) -> ReplyView {
        match *self {
            Reply::Text(text) => ReplyView::Text(text@),
            Reply::Choice(yes) => ReplyView::Choice(yes),
        }
    }
}

impl DeepView for Reply {
    type V = ReplyView;

    open spec fn deep_view(&self) -> ReplyView {
        self@
    }
}

impl View for Outcome {
    type V = OutcomeView;

    open spec fn view(&self) -> OutcomeView {
        match *self {
            Outcome::Apply(transition) => OutcomeView::Apply(transition@),
            Outcome::List { cumulative, period, danger } => OutcomeView::List {
                cumulative,
                period,
                danger,
            },
            Outcome::StateLocation => OutcomeView::StateLocation,
        }
    }
}

impl View for RequestError {
    type V = RequestFault;

    open spec fn view(&self) -> RequestFault {
        match *self {
            RequestError::NoName => RequestFault::NoName,
            RequestError::NoPeriod => RequestFault::NoPeriod,
            RequestError::NoTime => RequestFault::NoTime,
            RequestError::NoNotes => RequestFault::NoNotes,
            RequestError::NoCurrentName => RequestFault::NoCurrentName,
            RequestError::NoNewName => RequestFault::NoNewName,
            RequestError::Span(e) => RequestFault::Span(e@),
            RequestError::Aborted => RequestFault::Aborted,
            RequestError::Unsupported => RequestFault::Unsupported,
            RequestError::UnexpectedReply => RequestFault::UnexpectedReply,
        }
    }
}

impl View for Step {
    type V = StepView;

    open spec fn view(&self) -> StepView {
        match *self {
            Step::Ask(question) => StepView::Ask(question@),
            Step::Done(outcome) => StepView::Done(outcome@),
            Step::Fail(e) => StepView::Fail(e@),
        }
    }
}

} // verus!
