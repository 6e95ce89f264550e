use xorcrypt::session::{step, Action, Event, RunError, Stage};

fn run(events: &[Event]) -> (Stage, Vec<Action>) {
    let mut stage = Stage::Start;
    let mut actions = Vec::new();
    for e in events {
        let (s, a) = step(stage, *e);
        stage = s;
        actions.push(a);
    }
    (stage, actions)
}

#[test]
fn full_run_reaches_copy() {
    let (stage, actions) = run(&[
        Event::Arguments(2),
        Event::KeyRead(true),
        Event::SourceOpened(true),
        Event::SinkChecked(false),
        Event::SinkCreated(true),
    ]);
    assert_eq!(stage, Stage::Copying);
    assert_eq!(
        actions,
        vec![
            Action::PromptKey,
            Action::OpenSource,
            Action::CheckSink,
            Action::CreateSink,
            Action::Copy
        ]
    );
}

#[test]
fn too_few_arguments() {
    assert_eq!(
        step(Stage::Start, Event::Arguments(1)),
        (Stage::Failed(RunError::Usage), Action::Report(RunError::Usage))
    );
    assert_eq!(
        step(Stage::Start, Event::Arguments(0)),
        (Stage::Failed(RunError::Usage), Action::Report(RunError::Usage))
    );
}

#[test]
fn empty_key_stops_before_files() {
    let (stage, actions) = run(&[
        Event::Arguments(2),
        Event::KeyRead(false),
        Event::SourceOpened(true),
    ]);
    assert_eq!(stage, Stage::Failed(RunError::EmptyKey));
    assert_eq!(
        actions,
        vec![Action::PromptKey, Action::Report(RunError::EmptyKey), Action::Ignore]
    );
}

#[test]
fn missing_source() {
    let (stage, actions) = run(&[
        Event::Arguments(3),
        Event::KeyRead(true),
        Event::SourceOpened(false),
    ]);
    assert_eq!(stage, Stage::Failed(RunError::SourceUnavailable));
    assert_eq!(actions[2], Action::Report(RunError::SourceUnavailable));
}

#[test]
fn existing_sink_is_never_created() {
    let (stage, actions) = run(&[
        Event::Arguments(2),
        Event::KeyRead(true),
        Event::SourceOpened(true),
        Event::SinkChecked(true),
        Event::SinkCreated(true),
    ]);
    assert_eq!(stage, Stage::Failed(RunError::SinkAlreadyExists));
    assert!(!actions.contains(&Action::CreateSink));
    assert!(!actions.contains(&Action::Copy));
}

#[test]
fn sink_not_creatable() {
    let (stage, actions) = run(&[
        Event::Arguments(2),
        Event::KeyRead(true),
        Event::SourceOpened(true),
        Event::SinkChecked(false),
        Event::SinkCreated(false),
    ]);
    assert_eq!(stage, Stage::Failed(RunError::SinkUnavailable));
    assert_eq!(actions[4], Action::Report(RunError::SinkUnavailable));
}

#[test]
fn out_of_order_event_is_ignored() {
    assert_eq!(
        step(Stage::AwaitKey, Event::SinkChecked(false)),
        (Stage::AwaitKey, Action::Ignore)
    );
}
