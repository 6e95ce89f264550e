//! The decisions of one run: which step comes next, given what the last one
//! reported. The caller performs each action and hands back what it found.
use vstd::prelude::*;

verus! {

/// Why a run stopped.
#[derive(Clone, Copy, Debug, PartialEq, Eq, Structural)]
pub enum RunError {
    /// Fewer than two positional arguments.
    Usage,
    /// The passphrase was empty once trimmed.
    EmptyKey,
    /// The input file could not be opened.
    SourceUnavailable,
    /// The output file exists already; it is never overwritten.
    SinkAlreadyExists,
    /// The output file could not be created.
    SinkUnavailable,
}

/// Where a run stands.
#[derive(Clone, Copy, Debug, PartialEq, Eq, Structural)]
pub enum Stage {
    /// Nothing has happened yet.
    Start,
    /// The passphrase has been asked for.
    AwaitKey,
    /// The input file is being opened.
    AwaitSource,
    /// The output path is being tested for existence.
    AwaitSinkCheck,
    /// The output file is being created.
    AwaitSinkCreate,
    /// Input is being masked and written out.
    Copying,
    /// The run has stopped with an error.
    Failed(RunError),
}

/// What the caller found when it performed the last action.
#[derive(Clone, Copy, Debug, PartialEq, Eq, Structural)]
pub enum Event {
    /// The number of positional arguments.
    Arguments(usize),
    /// Whether a usable passphrase was read.
    KeyRead(bool),
    /// Whether the input file was opened.
    SourceOpened(bool),
    /// Whether the output path exists.
    SinkChecked(bool),
    /// Whether the output file was created.
    SinkCreated(bool),
}

/// What the caller is to do next.
#[derive(Clone, Copy, Debug, PartialEq, Eq, Structural)]
pub enum Action {
    /// Ask for the passphrase.
    PromptKey,
    /// Open the input file.
    OpenSource,
    /// Test whether the output path exists.
    CheckSink,
    /// Create the output file.
    CreateSink,
    /// Mask the input into the output until the input ends.
    Copy,
    /// Report the error and end the run with a failure status.
    Report(RunError),
    /// Nothing: the event does not belong to this stage.
    Ignore,
}

/// The next stage and action of a run at `s` that is told `e`.
pub open spec fn transition(s: Stage, e: Event) -> (Stage, Action) {
    match (s, e) {
        (Stage::Start, Event::Arguments(n)) => if n < 2 {
            (Stage::Failed(RunError::Usage), Action::Report(RunError::Usage))
        } else {
            (Stage::AwaitKey, Action::PromptKey)
        },
        (Stage::AwaitKey, Event::KeyRead(ok)) => if ok {
            (Stage::AwaitSource, Action::OpenSource)
        } else {
            (Stage::Failed(RunError::EmptyKey), Action::Report(RunError::EmptyKey))
        },
        (Stage::AwaitSource, Event::SourceOpened(ok)) => if ok {
            (Stage::AwaitSinkCheck, Action::CheckSink)
        } else {
            (Stage::Failed(RunError::SourceUnavailable), Action::Report(RunError::SourceUnavailable))
        },
        (Stage::AwaitSinkCheck, Event::SinkChecked(exists)) => if exists {
            (Stage::Failed(RunError::SinkAlreadyExists), Action::Report(RunError::SinkAlreadyExists))
        } else {
            (Stage::AwaitSinkCreate, Action::CreateSink)
        },
        (Stage::AwaitSinkCreate, Event::SinkCreated(ok)) => if ok {
            (Stage::Copying, Action::Copy)
        } else {
            (Stage::Failed(RunError::SinkUnavailable), Action::Report(RunError::SinkUnavailable))
        },
        _ => (s, Action::Ignore),
    }
}

/// Advances a run at `s` that is told `e`.
pub fn step(s: Stage, e: Event) -> (r: (Stage, Action))
    ensures
        r == transition(s, e),
{
    match (s, e) {
        (Stage::Start, Event::Arguments(n)) => if n < 2 {
            (Stage::Failed(RunError::Usage), Action::Report(RunError::Usage))
        } else {
            (Stage::AwaitKey, Action::PromptKey)
        },
        (Stage::AwaitKey, Event::KeyRead(ok)) => if ok {
            (Stage::AwaitSource, Action::OpenSource)
        } else {
            (Stage::Failed(RunError::EmptyKey), Action::Report(RunError::EmptyKey))
        },
        (Stage::AwaitSource, Event::SourceOpened(ok)) => if ok {
            (Stage::AwaitSinkCheck, Action::CheckSink)
        } else {
            (Stage::Failed(RunError::SourceUnavailable), Action::Report(RunError::SourceUnavailable))
        },
        (Stage::AwaitSinkCheck, Event::SinkChecked(exists)) => if exists {
            (Stage::Failed(RunError::SinkAlreadyExists), Action::Report(RunError::SinkAlreadyExists))
        } else {
            (Stage::AwaitSinkCreate, Action::CreateSink)
        },
        (Stage::AwaitSinkCreate, Event::SinkCreated(ok)) => if ok {
            (Stage::Copying, Action::Copy)
        } else {
            (Stage::Failed(RunError::SinkUnavailable), Action::Report(RunError::SinkUnavailable))
        },
        _ => (s, Action::Ignore),
    }
}

/// An output path that exists stops the run with `SinkAlreadyExists`. The
/// output file is created only after its path was found free, and input is
/// copied into it only once it was created. A stopped run issues no further
/// action, so nothing is ever written over an existing file.
pub proof fn lemma_no_overwrite()
    ensures
        transition(Stage::AwaitSinkCheck, Event::SinkChecked(true)) == (
        Stage::Failed(RunError::SinkAlreadyExists),
        Action::Report(RunError::SinkAlreadyExists),
        ),
        forall|s: Stage, e: Event| #[trigger]
            transition(s, e).1 == Action::CreateSink ==> s == Stage::AwaitSinkCheck && e
                == Event::SinkChecked(false),
        forall|s: Stage, e: Event| #[trigger]
            transition(s, e).1 == Action::Copy ==> s == Stage::AwaitSinkCreate && e
                == Event::SinkCreated(true),
        forall|s: Stage, e: Event| #[trigger]
            transition(s, e).0 == Stage::AwaitSinkCreate ==> s == Stage::AwaitSinkCreate || (s
                == Stage::AwaitSinkCheck && e == Event::SinkChecked(false)),
        forall|s: Stage, e: Event| #[trigger]
            transition(s, e).0 == Stage::Copying ==> s == Stage::Copying || (s
                == Stage::AwaitSinkCreate && e == Event::SinkCreated(true)),
        forall|err: RunError, e: Event| #[trigger]
            transition(Stage::Failed(err), e) == (Stage::Failed(err), Action::Ignore),
{
}

/// A passphrase that was not usable stops the run with `EmptyKey`, and the
/// input file is opened only after a usable one was read: no file is touched
/// before the passphrase is accepted.
pub proof fn lemma_empty_key_rejected()
    ensures
        transition(Stage::AwaitKey, Event::KeyRead(false)) == (
        Stage::Failed(RunError::EmptyKey),
        Action::Report(RunError::EmptyKey),
        ),
        forall|s: Stage, e: Event| #[trigger]
            transition(s, e).1 == Action::OpenSource ==> s == Stage::AwaitKey && e
                == Event::KeyRead(true),
        forall|s: Stage, e: Event| #[trigger]
            transition(s, e).0 == Stage::AwaitSource ==> s == Stage::AwaitSource || (s
                == Stage::AwaitKey && e == Event::KeyRead(true)),
{
}

} // verus!
