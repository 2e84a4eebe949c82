//! The questions and answers that turn a request into a change of state.
//!
//! Nothing here talks to the user. [`next_step`] looks at a request and
//! at the replies given so far and says what comes next: a question, the
//! outcome, or a failure. Whoever talks to the user puts the question,
//! adds the reply to the replies, and asks again.

use crate::duration::Duration;
use crate::flat::format_of;
use crate::grammar::{parse, phrase_secs};
use crate::request::{
    span_view, text_view, Outcome, OutcomeView, Question, QuestionView, Reply, ReplyView,
    RequestError, RequestFault, StateTransition, StateTransitionView, Step, StepView,
    SubCommand, SubCommandView, UserConfig,
};
use vstd::prelude::*;

verus! {

/// The question for the name of a new practice.
pub open spec fn ask_practice() -> Seq<char> {
    "What would you like to practice?"@
}

/// The question for the period of the practice `name`.
pub open spec fn ask_how_often(name: Seq<char>) -> Seq<char> {
    "How often (not how long) would you like to practice \""@ + name + "?\""@
}

/// The question for the time spent on the practice `name`.
pub open spec fn ask_how_long(name: Seq<char>) -> Seq<char> {
    "How long did you practice \""@ + name + "?\""@
}

/// The question whether the period of `name` is to become `shown`.
pub open spec fn ask_change_period(name: Seq<char>, shown: Seq<char>) -> Seq<char> {
    "Change period of \""@ + name + "\" to "@ + shown + "?"@
}

/// The question whether the practice `name` is to go.
pub open spec fn ask_remove(name: Seq<char>) -> Seq<char> {
    "Remove practice \""@ + name + "?\""@
}

/// The text of reply `k`, or the step to take where it cannot be had:
/// put `question` where no such reply was given yet, fail where the
/// reply is no text.
pub open spec fn reply_text(replies: Seq<ReplyView>, k: int, question: QuestionView) -> Result<
    Seq<char>,
    StepView,
> {
    if k >= replies.len() {
        Err(StepView::Ask(question))
    } else {
        match replies[k] {
            ReplyView::Text(text) => Ok(text),
            ReplyView::Choice(_) => Err(StepView::Fail(RequestFault::UnexpectedReply)),
        }
    }
}

/// The duration that reply `k` states, in seconds, or the step to take
/// where it cannot be had. A reply that is no phrase fails the request.
pub open spec fn reply_span(replies: Seq<ReplyView>, k: int, question: QuestionView) -> Result<
    nat,
    StepView,
> {
    match reply_text(replies, k, question) {
        Ok(text) => match phrase_secs(text) {
            Ok(secs) => Ok(secs),
            Err(fault) => Err(StepView::Fail(RequestFault::Span(fault))),
        },
        Err(step) => Err(step),
    }
}

/// The yes or no of reply `k`, or the step to take where it cannot be
/// had.
pub open spec fn reply_choice(replies: Seq<ReplyView>, k: int, question: QuestionView) -> Result<
    bool,
    StepView,
> {
    if k >= replies.len() {
        Err(StepView::Ask(question))
    } else {
        match replies[k] {
            ReplyView::Choice(yes) => Ok(yes),
            ReplyView::Text(_) => Err(StepView::Fail(RequestFault::UnexpectedReply)),
        }
    }
}

/// A text that a request needs: reply `k` where the request is
/// interactive, what was entered with the request otherwise, and the
/// failure `missing` where nothing was entered.
pub open spec fn text_for(
    entered: Option<Seq<char>>,
    interactive: bool,
    replies: Seq<ReplyView>,
    k: int,
    question: QuestionView,
    missing: RequestFault,
) -> Result<Seq<char>, StepView> {
    if interactive {
        reply_text(replies, k, question)
    } else {
        match entered {
            Some(text) => Ok(text),
            None => Err(StepView::Fail(missing)),
        }
    }
}

/// A duration that a request needs, found as [`text_for`] finds a text.
pub open spec fn span_for(
    entered: Option<nat>,
    interactive: bool,
    replies: Seq<ReplyView>,
    k: int,
    question: QuestionView,
    missing: RequestFault,
) -> Result<nat, StepView> {
    if interactive {
        reply_span(replies, k, question)
    } else {
        match entered {
            Some(secs) => Ok(secs),
            None => Err(StepView::Fail(missing)),
        }
    }
}

/// The change of state once the user has agreed to it: the question
/// where reply `k` was not given yet, and a failure where it is a no.
pub open spec fn once_confirmed(
    replies: Seq<ReplyView>,
    k: int,
    message: Seq<char>,
    transition: StateTransitionView,
) -> StepView {
    match reply_choice(replies, k, QuestionView::Confirm { message }) {
        Ok(yes) => if yes {
            StepView::Done(OutcomeView::Apply(transition))
        } else {
            StepView::Fail(RequestFault::Aborted)
        },
        Err(step) => step,
    }
}

/// What comes next for the request `command`, with the settings in
/// force holding `grace_period` and with `replies` given so far.
///
/// Questions are put one at a time, in a fixed order, and each reply is
/// looked at before the next question is put. A request that is not
/// interactive is asked nothing but the confirmation that a change of
/// period and a removal need.
pub open spec fn plan(command: SubCommandView, grace_period: nat, replies: Seq<ReplyView>) -> StepView {
    match command {
        SubCommandView::List { cumulative, period, danger } => StepView::Done(
            OutcomeView::List { cumulative, period, danger },
        ),
        SubCommandView::Add { name, period, interactive } => match text_for(
            name,
            interactive,
            replies,
            0,
            QuestionView::Text { message: ask_practice() },
            RequestFault::NoName,
        ) {
            Err(step) => step,
            Ok(name) => match span_for(
                period,
                interactive,
                replies,
                1,
                QuestionView::Span { message: ask_how_often(name) },
                RequestFault::NoPeriod,
            ) {
                Err(step) => step,
                Ok(period) => StepView::Done(
                    OutcomeView::Apply(StateTransitionView::Add { name, period }),
                ),
            },
        },
        SubCommandView::Log { name, time, interactive } => match text_for(
            name,
            interactive,
            replies,
            0,
            QuestionView::PickName,
            RequestFault::NoName,
        ) {
            Err(step) => step,
            Ok(name) => match span_for(
                time,
                interactive,
                replies,
                1,
                QuestionView::Span { message: ask_how_long(name) },
                RequestFault::NoTime,
            ) {
                Err(step) => step,
                Ok(time) => StepView::Done(
                    OutcomeView::Apply(StateTransitionView::Log { name, time }),
                ),
            },
        },
        SubCommandView::Notes { name, new_notes, interactive } => match text_for(
            name,
            interactive,
            replies,
            0,
            QuestionView::PickName,
            RequestFault::NoName,
        ) {
            Err(step) => step,
            Ok(name) => match text_for(
                new_notes,
                interactive,
                replies,
                1,
                QuestionView::EditNotes { name },
                RequestFault::NoNotes,
            ) {
                Err(step) => step,
                Ok(notes) => StepView::Done(
                    OutcomeView::Apply(StateTransitionView::Notes { name, notes }),
                ),
            },
        },
        SubCommandView::Reset => StepView::Done(OutcomeView::Apply(StateTransitionView::Reset)),
        SubCommandView::StateLocation => StepView::Done(OutcomeView::StateLocation),
        SubCommandView::EditPeriod { name, period, interactive } => match text_for(
            name,
            interactive,
            replies,
            0,
            QuestionView::PickName,
            RequestFault::NoName,
        ) {
            Err(step) => step,
            Ok(name) => match span_for(
                period,
                interactive,
                replies,
                1,
                QuestionView::Span { message: ask_how_often(name) },
                RequestFault::NoPeriod,
            ) {
                Err(step) => step,
                Ok(new_period) => once_confirmed(
                    replies,
                    if interactive {
                        2
                    } else {
                        0
                    },
                    ask_change_period(name, format_of(new_period)),
                    StateTransitionView::EditPeriod { name, new_period },
                ),
            },
        },
        SubCommandView::Remove { name, interactive } => match text_for(
            name,
            interactive,
            replies,
            0,
            QuestionView::PickName,
            RequestFault::NoName,
        ) {
            Err(step) => step,
            Ok(name) => once_confirmed(
                replies,
                if interactive {
                    1
                } else {
                    0
                },
                ask_remove(name),
                StateTransitionView::Remove { name },
            ),
        },
        SubCommandView::Rename { current_name, new_name, interactive } => match text_for(
            current_name,
            interactive,
            replies,
            0,
            QuestionView::PickName,
            RequestFault::NoCurrentName,
        ) {
            Err(step) => step,
            Ok(current_name) => match text_for(
                new_name,
                interactive,
                replies,
                1,
                QuestionView::PickName,
                RequestFault::NoNewName,
            ) {
                Err(step) => step,
                Ok(new_name) => StepView::Done(
                    OutcomeView::Apply(StateTransitionView::Rename { current_name, new_name }),
                ),
            },
        },
        SubCommandView::Config { grace_period: entered, interactive } => if interactive {
            StepView::Fail(RequestFault::Unsupported)
        } else {
            StepView::Done(
                OutcomeView::Apply(
                    StateTransitionView::Config {
                        grace_period: match entered {
                            Some(secs) => secs,
                            None => grace_period,
                        },
                    },
                ),
            )
        },
    }
}

/// Puts `before`, `name` and `after` together.
fn framed(before: &str, name: &str, after: &str) -> (text: String)
    ensures
        text@ == before@ + name@ + after@,
{
    let mut text: String = before.to_owned();
    text.append(name);
    text.append(after);
    text
}

/// The text of reply `k`, or the step to take where it cannot be had.
fn take_text(replies: &Vec<Reply>, k: usize, question: Question) -> (r: Result<String, Step>)
    ensures
        match r {
            Ok(text) => reply_text(replies.deep_view(), k as int, question@) == Ok::<
                Seq<char>,
                StepView,
            >(text@),
            Err(step) => reply_text(replies.deep_view(), k as int, question@) == Err::<
                Seq<char>,
                StepView,
            >(step@),
        },
{
    if k >= replies.len() {
        return Err(Step::Ask(question));
    }
    assert(replies.deep_view()[k as int] == replies[k as int]@);
    match &replies[k] {
        Reply::Text(text) => Ok(text.clone()),
        Reply::Choice(_) => Err(Step::Fail(RequestError::UnexpectedReply)),
    }
}

/// The duration that reply `k` states, or the step to take where it
/// cannot be had.
fn take_span(replies: &Vec<Reply>, k: usize, question: Question) -> (r: Result<Duration, Step>)
    ensures
        match r {
            Ok(span) => reply_span(replies.deep_view(), k as int, question@) == Ok::<
                nat,
                StepView,
            >(span@),
            Err(step) => reply_span(replies.deep_view(), k as int, question@) == Err::<
                nat,
                StepView,
            >(step@),
        },
{
    match take_text(replies, k, question) {
        Ok(text) => match parse(text.as_str()) {
            Ok(span) => Ok(span),
            Err(e) => Err(Step::Fail(RequestError::Span(e))),
        },
        Err(step) => Err(step),
    }
}

/// A text that a request needs, or the step to take where it cannot be
/// had.
fn find_text(
    entered: &Option<String>,
    interactive: bool,
    replies: &Vec<Reply>,
    k: usize,
    question: Question,
    missing: RequestError,
) -> (r: Result<String, Step>)
    ensures
        match r {
            Ok(text) => text_for(
                text_view(*entered),
                interactive,
                replies.deep_view(),
                k as int,
                question@,
                missing@,
            ) == Ok::<Seq<char>, StepView>(text@),
            Err(step) => text_for(
                text_view(*entered),
                interactive,
                replies.deep_view(),
                k as int,
                question@,
                missing@,
            ) == Err::<Seq<char>, StepView>(step@),
        },
{
    if interactive {
        take_text(replies, k, question)
    } else {
        match entered {
            Some(text) => Ok(text.clone()),
            None => Err(Step::Fail(missing)),
        }
    }
}

/// A duration that a request needs, or the step to take where it cannot
/// be had.
fn find_span(
    entered: &Option<Duration>,
    interactive: bool,
    replies: &Vec<Reply>,
    k: usize,
    question: Question,
    missing: RequestError,
) -> (r: Result<Duration, Step>)
    ensures
        match r {
            Ok(span) => span_for(
                span_view(*entered),
                interactive,
                replies.deep_view(),
                k as int,
                question@,
                missing@,
            ) == Ok::<nat, StepView>(span@),
            Err(step) => span_for(
                span_view(*entered),
                interactive,
                replies.deep_view(),
                k as int,
                question@,
                missing@,
            ) == Err::<nat, StepView>(step@),
        },
{
    if interactive {
        take_span(replies, k, question)
    } else {
        match entered {
            Some(span) => Ok(*span),
            None => Err(Step::Fail(missing)),
        }
    }
}

/// The change of state once the user has agreed to it.
fn confirm(replies: &Vec<Reply>, k: usize, message: String, transition: StateTransition) -> (step:
    Step)
    ensures
        step@ == once_confirmed(replies.deep_view(), k as int, message@, transition@),
{
    if k >= replies.len() {
        return Step::Ask(Question::Confirm { message });
    }
    assert(replies.deep_view()[k as int] == replies[k as int]@);
    match &replies[k] {
        Reply::Choice(yes) => if *yes {
            Step::Done(Outcome::Apply(transition))
        } else {
            Step::Fail(RequestError::Aborted)
        },
        Reply::Text(_) => Step::Fail(RequestError::UnexpectedReply),
    }
}

/// Says what comes next for the request `command`, given the settings
/// in force and the replies to the questions put so far.
///
/// The caller puts the question of an [`Step::Ask`] to the user, adds
/// the reply to `replies` and calls again, until the step is the
/// outcome or a failure. A duration phrase that the user enters is read
/// here, and a phrase that cannot be read fails the request.
pub fn next_step(command: &SubCommand, config: UserConfig, replies: &Vec<Reply>) -> (step: Step)
    ensures
        step@ == plan(command@, config.grace_period@, replies.deep_view()),
{
    match command {
        SubCommand::List { cumulative, period, danger } => Step::Done(
            Outcome::List { cumulative: *cumulative, period: *period, danger: *danger },
        ),
        SubCommand::Add { name, period, interactive } => {
            let question = Question::Text { message: "What would you like to practice?".to_owned() };
            let name: String = match find_text(
                name,
                *interactive,
                replies,
                0,
                question,
                RequestError::NoName,
            ) {
                Ok(name) => name,
                Err(step) => {
                    return step;
                },
            };
            let question = Question::Span {
                message: framed(
                    "How often (not how long) would you like to practice \"",
                    name.as_str(),
                    "?\"",
                ),
            };
            let period: Duration = match find_span(
                period,
                *interactive,
                replies,
                1,
                question,
                RequestError::NoPeriod,
            ) {
                Ok(period) => period,
                Err(step) => {
                    return step;
                },
            };
            Step::Done(Outcome::Apply(StateTransition::Add { name, period }))
        },
        SubCommand::Log { name, time, interactive } => {
            let name: String = match find_text(
                name,
                *interactive,
                replies,
                0,
                Question::PickName,
                RequestError::NoName,
            ) {
                Ok(name) => name,
                Err(step) => {
                    return step;
                },
            };
            let question = Question::Span {
                message: framed("How long did you practice \"", name.as_str(), "?\""),
            };
            let time: Duration = match find_span(
                time,
                *interactive,
                replies,
                1,
                question,
                RequestError::NoTime,
            ) {
                Ok(time) => time,
                Err(step) => {
                    return step;
                },
            };
            Step::Done(Outcome::Apply(StateTransition::Log { name, time }))
        },
        SubCommand::Notes { name, new_notes, interactive } => {
            let name: String = match find_text(
                name,
                *interactive,
                replies,
                0,
                Question::PickName,
                RequestError::NoName,
            ) {
                Ok(name) => name,
                Err(step) => {
                    return step;
                },
            };
            let question = Question::EditNotes { name: name.clone() };
            let notes: String = match find_text(
                new_notes,
                *interactive,
                replies,
                1,
                question,
                RequestError::NoNotes,
            ) {
                Ok(notes) => notes,
                Err(step) => {
                    return step;
                },
            };
            Step::Done(Outcome::Apply(StateTransition::Notes { name, notes }))
        },
        SubCommand::Reset => Step::Done(Outcome::Apply(StateTransition::Reset)),
        SubCommand::StateLocation => Step::Done(Outcome::StateLocation),
        SubCommand::EditPeriod { name, period, interactive } => {
            let name: String = match find_text(
                name,
                *interactive,
                replies,
                0,
                Question::PickName,
                RequestError::NoName,
            ) {
                Ok(name) => name,
                Err(step) => {
                    return step;
                },
            };
            let question = Question::Span {
                message: framed(
                    "How often (not how long) would you like to practice \"",
                    name.as_str(),
                    "?\"",
                ),
            };
            let new_period: Duration = match find_span(
                period,
                *interactive,
                replies,
                1,
                question,
                RequestError::NoPeriod,
            ) {
                Ok(period) => period,
                Err(step) => {
                    return step;
                },
            };
            let shown: String = crate::flat::format(new_period);
            let mut message: String = framed("Change period of \"", name.as_str(), "\" to ");
            message.append(shown.as_str());
            message.append("?");
            let asked: usize = if *interactive {
                2
            } else {
                0
            };
            confirm(replies, asked, message, StateTransition::EditPeriod { name, new_period })
        },
        SubCommand::Remove { name, interactive } => {
            let name: String = match find_text(
                name,
                *interactive,
                replies,
                0,
                Question::PickName,
                RequestError::NoName,
            ) {
                Ok(name) => name,
                Err(step) => {
                    return step;
                },
            };
            let message: String = framed("Remove practice \"", name.as_str(), "?\"");
            let asked: usize = if *interactive {
                1
            } else {
                0
            };
            confirm(replies, asked, message, StateTransition::Remove { name })
        },
        SubCommand::Rename { current_name, new_name, interactive } => {
            let current_name: String = match find_text(
                current_name,
                *interactive,
                replies,
                0,
                Question::PickName,
                RequestError::NoCurrentName,
            ) {
                Ok(name) => name,
                Err(step) => {
                    return step;
                },
            };
            let new_name: String = match find_text(
                new_name,
                *interactive,
                replies,
                1,
                Question::PickName,
                RequestError::NoNewName,
            ) {
                Ok(name) => name,
                Err(step) => {
                    return step;
                },
            };
            Step::Done(Outcome::Apply(StateTransition::Rename { current_name, new_name }))
        },
        SubCommand::Config { grace_period, interactive } => {
            if *interactive {
                return Step::Fail(RequestError::Unsupported);
            }
            let new_config = match grace_period {
                Some(span) => UserConfig { grace_period: *span },
                None => config,
            };
            Step::Done(Outcome::Apply(StateTransition::Config { new_config }))
        },
    }
}

} // verus!
