use prac::dialogue::next_step;
use prac::duration::Duration;
use prac::error::ParseError;
use prac::request::{
    Outcome, Question, Reply, RequestError, StateTransition, Step, SubCommand, UserConfig,
};

fn config() -> UserConfig {
    UserConfig { grace_period: Duration::from_secs(3_600) }
}

fn text(t: &str) -> Reply {
    Reply::Text(t.to_string())
}

fn some(t: &str) -> Option<String> {
    Some(t.to_string())
}

#[test]
fn list_needs_no_questions() {
    let command = SubCommand::List { cumulative: true, period: false, danger: true };
    assert_eq!(
        next_step(&command, config(), &vec![]),
        Step::Done(Outcome::List { cumulative: true, period: false, danger: true })
    );
}

#[test]
fn reset_and_state_location_need_no_questions() {
    assert_eq!(
        next_step(&SubCommand::Reset, config(), &vec![]),
        Step::Done(Outcome::Apply(StateTransition::Reset))
    );
    assert_eq!(
        next_step(&SubCommand::StateLocation, config(), &vec![]),
        Step::Done(Outcome::StateLocation)
    );
}

#[test]
fn add_with_everything_entered() {
    let command = SubCommand::Add {
        name: some("weekly repo"),
        period: Some(Duration::from_secs(604_800)),
        interactive: false,
    };
    assert_eq!(
        next_step(&command, config(), &vec![]),
        Step::Done(Outcome::Apply(StateTransition::Add {
            name: "weekly repo".to_string(),
            period: Duration::from_secs(604_800),
        }))
    );
}

#[test]
fn add_without_a_name_fails_before_the_period_is_looked_at() {
    let command = SubCommand::Add { name: None, period: None, interactive: false };
    assert_eq!(next_step(&command, config(), &vec![]), Step::Fail(RequestError::NoName));
    let command = SubCommand::Add { name: some("steno"), period: None, interactive: false };
    assert_eq!(next_step(&command, config(), &vec![]), Step::Fail(RequestError::NoPeriod));
}

#[test]
fn interactive_add_asks_for_name_and_period() {
    let command = SubCommand::Add {
        name: some("ignored"),
        period: Some(Duration::from_secs(1)),
        interactive: true,
    };
    let mut replies = Vec::new();
    assert_eq!(
        next_step(&command, config(), &replies),
        Step::Ask(Question::Text { message: "What would you like to practice?".to_string() })
    );
    replies.push(text("steno"));
    assert_eq!(
        next_step(&command, config(), &replies),
        Step::Ask(Question::Span {
            message: "How often (not how long) would you like to practice \"steno?\"".to_string()
        })
    );
    replies.push(text("1w 4d"));
    assert_eq!(
        next_step(&command, config(), &replies),
        Step::Done(Outcome::Apply(StateTransition::Add {
            name: "steno".to_string(),
            period: Duration::from_secs(11 * 86_400),
        }))
    );
}

#[test]
fn a_reply_that_is_no_phrase_fails_the_request() {
    let command = SubCommand::Add { name: None, period: None, interactive: true };
    let replies = vec![text("steno"), text("soon")];
    assert_eq!(
        next_step(&command, config(), &replies),
        Step::Fail(RequestError::Span(ParseError::MalformedInteger {
            position: 0,
            text: "soon".to_string()
        }))
    );
    let replies = vec![text("steno"), text("")];
    assert_eq!(
        next_step(&command, config(), &replies),
        Step::Fail(RequestError::Span(ParseError::Empty))
    );
}

#[test]
fn a_reply_of_the_wrong_kind_fails_the_request() {
    let command = SubCommand::Add { name: None, period: None, interactive: true };
    assert_eq!(
        next_step(&command, config(), &vec![Reply::Choice(true)]),
        Step::Fail(RequestError::UnexpectedReply)
    );
    let command = SubCommand::Remove { name: some("steno"), interactive: false };
    assert_eq!(
        next_step(&command, config(), &vec![text("yes")]),
        Step::Fail(RequestError::UnexpectedReply)
    );
}

#[test]
fn log_entered_and_interactive() {
    let command = SubCommand::Log {
        name: some("steno"),
        time: Some(Duration::from_secs(1_800)),
        interactive: false,
    };
    assert_eq!(
        next_step(&command, config(), &vec![]),
        Step::Done(Outcome::Apply(StateTransition::Log {
            name: "steno".to_string(),
            time: Duration::from_secs(1_800),
        }))
    );
    let command = SubCommand::Log { name: None, time: None, interactive: false };
    assert_eq!(next_step(&command, config(), &vec![]), Step::Fail(RequestError::NoName));
    let command = SubCommand::Log { name: some("steno"), time: None, interactive: false };
    assert_eq!(next_step(&command, config(), &vec![]), Step::Fail(RequestError::NoTime));
    let command = SubCommand::Log { name: None, time: None, interactive: true };
    assert_eq!(next_step(&command, config(), &vec![]), Step::Ask(Question::PickName));
    assert_eq!(
        next_step(&command, config(), &vec![text("steno")]),
        Step::Ask(Question::Span { message: "How long did you practice \"steno?\"".to_string() })
    );
    assert_eq!(
        next_step(&command, config(), &vec![text("steno"), text("30minutes")]),
        Step::Done(Outcome::Apply(StateTransition::Log {
            name: "steno".to_string(),
            time: Duration::from_secs(1_800),
        }))
    );
}

#[test]
fn notes_entered_and_interactive() {
    let command = SubCommand::Notes {
        name: some("steno"),
        new_notes: some("faster"),
        interactive: false,
    };
    assert_eq!(
        next_step(&command, config(), &vec![]),
        Step::Done(Outcome::Apply(StateTransition::Notes {
            name: "steno".to_string(),
            notes: "faster".to_string(),
        }))
    );
    let command = SubCommand::Notes { name: some("steno"), new_notes: None, interactive: false };
    assert_eq!(next_step(&command, config(), &vec![]), Step::Fail(RequestError::NoNotes));
    let command = SubCommand::Notes { name: None, new_notes: some("x"), interactive: false };
    assert_eq!(next_step(&command, config(), &vec![]), Step::Fail(RequestError::NoName));
    let command = SubCommand::Notes { name: None, new_notes: None, interactive: true };
    assert_eq!(next_step(&command, config(), &vec![]), Step::Ask(Question::PickName));
    assert_eq!(
        next_step(&command, config(), &vec![text("steno")]),
        Step::Ask(Question::EditNotes { name: "steno".to_string() })
    );
    assert_eq!(
        next_step(&command, config(), &vec![text("steno"), text("slower")]),
        Step::Done(Outcome::Apply(StateTransition::Notes {
            name: "steno".to_string(),
            notes: "slower".to_string(),
        }))
    );
}

#[test]
fn edit_period_is_confirmed_even_when_everything_was_entered() {
    let command = SubCommand::EditPeriod {
        name: some("steno"),
        period: Some(Duration::from_secs(11 * 86_400)),
        interactive: false,
    };
    assert_eq!(
        next_step(&command, config(), &vec![]),
        Step::Ask(Question::Confirm {
            message: "Change period of \"steno\" to 1w4d?".to_string()
        })
    );
    assert_eq!(
        next_step(&command, config(), &vec![Reply::Choice(true)]),
        Step::Done(Outcome::Apply(StateTransition::EditPeriod {
            name: "steno".to_string(),
            new_period: Duration::from_secs(11 * 86_400),
        }))
    );
    assert_eq!(
        next_step(&command, config(), &vec![Reply::Choice(false)]),
        Step::Fail(RequestError::Aborted)
    );
}

#[test]
fn edit_period_without_what_it_needs() {
    let command = SubCommand::EditPeriod { name: None, period: None, interactive: false };
    assert_eq!(next_step(&command, config(), &vec![]), Step::Fail(RequestError::NoName));
    let command = SubCommand::EditPeriod { name: some("steno"), period: None, interactive: false };
    assert_eq!(next_step(&command, config(), &vec![]), Step::Fail(RequestError::NoPeriod));
}

#[test]
fn interactive_edit_period_asks_three_times() {
    let command = SubCommand::EditPeriod { name: None, period: None, interactive: true };
    let mut replies = Vec::new();
    assert_eq!(next_step(&command, config(), &replies), Step::Ask(Question::PickName));
    replies.push(text("steno"));
    assert_eq!(
        next_step(&command, config(), &replies),
        Step::Ask(Question::Span {
            message: "How often (not how long) would you like to practice \"steno?\"".to_string()
        })
    );
    replies.push(text("90 min"));
    assert_eq!(
        next_step(&command, config(), &replies),
        Step::Ask(Question::Confirm {
            message: "Change period of \"steno\" to 1h30m?".to_string()
        })
    );
    replies.push(Reply::Choice(false));
    assert_eq!(next_step(&command, config(), &replies), Step::Fail(RequestError::Aborted));
    replies.pop();
    replies.push(Reply::Choice(true));
    assert_eq!(
        next_step(&command, config(), &replies),
        Step::Done(Outcome::Apply(StateTransition::EditPeriod {
            name: "steno".to_string(),
            new_period: Duration::from_secs(5_400),
        }))
    );
}

#[test]
fn remove_is_confirmed() {
    let command = SubCommand::Remove { name: some("steno"), interactive: false };
    assert_eq!(
        next_step(&command, config(), &vec![]),
        Step::Ask(Question::Confirm { message: "Remove practice \"steno?\"".to_string() })
    );
    assert_eq!(
        next_step(&command, config(), &vec![Reply::Choice(true)]),
        Step::Done(Outcome::Apply(StateTransition::Remove { name: "steno".to_string() }))
    );
    assert_eq!(
        next_step(&command, config(), &vec![Reply::Choice(false)]),
        Step::Fail(RequestError::Aborted)
    );
    let command = SubCommand::Remove { name: None, interactive: false };
    assert_eq!(next_step(&command, config(), &vec![]), Step::Fail(RequestError::NoName));
    let command = SubCommand::Remove { name: None, interactive: true };
    assert_eq!(next_step(&command, config(), &vec![]), Step::Ask(Question::PickName));
    assert_eq!(
        next_step(&command, config(), &vec![text("steno")]),
        Step::Ask(Question::Confirm { message: "Remove practice \"steno?\"".to_string() })
    );
    assert_eq!(
        next_step(&command, config(), &vec![text("steno"), Reply::Choice(true)]),
        Step::Done(Outcome::Apply(StateTransition::Remove { name: "steno".to_string() }))
    );
}

#[test]
fn rename_entered_and_interactive() {
    let command = SubCommand::Rename {
        current_name: some("steno"),
        new_name: some("shorthand"),
        interactive: false,
    };
    assert_eq!(
        next_step(&command, config(), &vec![]),
        Step::Done(Outcome::Apply(StateTransition::Rename {
            current_name: "steno".to_string(),
            new_name: "shorthand".to_string(),
        }))
    );
    let command = SubCommand::Rename { current_name: None, new_name: some("x"), interactive: false };
    assert_eq!(next_step(&command, config(), &vec![]), Step::Fail(RequestError::NoCurrentName));
    let command = SubCommand::Rename { current_name: some("x"), new_name: None, interactive: false };
    assert_eq!(next_step(&command, config(), &vec![]), Step::Fail(RequestError::NoNewName));
    let command = SubCommand::Rename { current_name: None, new_name: None, interactive: true };
    assert_eq!(next_step(&command, config(), &vec![]), Step::Ask(Question::PickName));
    assert_eq!(next_step(&command, config(), &vec![text("a")]), Step::Ask(Question::PickName));
    assert_eq!(
        next_step(&command, config(), &vec![text("a"), text("b")]),
        Step::Done(Outcome::Apply(StateTransition::Rename {
            current_name: "a".to_string(),
            new_name: "b".to_string(),
        }))
    );
}

#[test]
fn config_changes_only_what_was_entered() {
    let command = SubCommand::Config {
        grace_period: Some(Duration::from_secs(60)),
        interactive: false,
    };
    assert_eq!(
        next_step(&command, config(), &vec![]),
        Step::Done(Outcome::Apply(StateTransition::Config {
            new_config: UserConfig { grace_period: Duration::from_secs(60) },
        }))
    );
    let command = SubCommand::Config { grace_period: None, interactive: false };
    assert_eq!(
        next_step(&command, config(), &vec![]),
        Step::Done(Outcome::Apply(StateTransition::Config { new_config: config() }))
    );
    let command = SubCommand::Config { grace_period: None, interactive: true };
    assert_eq!(next_step(&command, config(), &vec![]), Step::Fail(RequestError::Unsupported));
}
