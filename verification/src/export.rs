//! The vocabulary that an export and its driver share. An export decides; the
//! driver acts. The export hands out one `Action` at a time, the driver carries
//! it out and hands back the `Event` that tells how it went, until the action
//! is `Finish`.

use crate::error::{plain_failure, result_view, ErrorKind, ErrorView, ExportError, Stage};
use crate::runner::{OutcomeView, ProcessOutcome};
use vstd::prelude::*;
use vstd::string::*;

verus! {

/// What the driver is to do next.
#[derive(Debug, PartialEq, Eq)]
pub enum Action {
    /// Invoke the engine with `args`, or its inspection tool where `stage` is
    /// `Stage::Probe`, wait for its end, and report `Event::Process`.
    Run { stage: Stage, args: Vec<String> },
    /// Read the text file at `path` and report `Event::Text`.
    ReadText { path: String },
    /// Create the directory `path` with its parents and report `Event::Done`.
    MakeDir { path: String },
    /// Copy the file `from` to `to` and report `Event::Done`.
    CopyFile { from: String, to: String },
    /// Write `text` to the file `path` and report `Event::Done`.
    WriteText { path: String, text: String },
    /// The export is over: remove what is at each of the paths of `cleanup`,
    /// whether or not that succeeds, and return `result` to the caller.
    Finish { result: Result<i32, ExportError>, cleanup: Vec<String> },
}

/// An `Action` with its texts as sequences of characters.
pub enum ActionView {
    Run { stage: Stage, args: Seq<Seq<char>> },
    ReadText { path: Seq<char> },
    MakeDir { path: Seq<char> },
    CopyFile { from: Seq<char>, to: Seq<char> },
    WriteText { path: Seq<char>, text: Seq<char> },
    Finish { result: Result<i32, ErrorView>, cleanup: Seq<Seq<char>> },
}

impl View for Action {
    type V = ActionView;

    open spec fn view(&self) -> ActionView {
        match self {
            Action::Run { stage, args } => ActionView::Run {
                stage: *stage,
                args: args.deep_view(),
            },
            Action::ReadText { path } => ActionView::ReadText { path: path@ },
            Action::MakeDir { path } => ActionView::MakeDir { path: path@ },
            Action::CopyFile { from, to } => ActionView::CopyFile { from: from@, to: to@ },
            Action::WriteText { path, text } => ActionView::WriteText { path: path@, text: text@ },
            Action::Finish { result, cleanup } => ActionView::Finish {
                result: result_view(*result),
                cleanup: cleanup.deep_view(),
            },
        }
    }
}

/// How the action that the driver carried out went.
#[derive(Debug, PartialEq, Eq)]
pub enum Event {
    /// How an invocation came out.
    Process(ProcessOutcome),
    /// The text that was read, or why it could not be read.
    Text(Result<String, String>),
    /// That a directory was made or a file copied or written, or why not.
    Done(Result<(), String>),
}

/// An `Event` with its texts as sequences of characters.
pub enum EventView {
    Process(OutcomeView),
    Text(Result<Seq<char>, Seq<char>>),
    Done(Result<(), Seq<char>>),
}

impl View for Event {
    type V = EventView;

    open spec fn view(&self) -> EventView {
        match self {
            Event::Process(outcome) => EventView::Process(outcome@),
            Event::Text(r) => EventView::Text(
                match r {
                    Ok(text) => Ok(text@),
                    Err(reason) => Err(reason@),
                },
            ),
            Event::Done(r) => EventView::Done(
                match r {
                    Ok(_) => Ok(()),
                    Err(reason) => Err(reason@),
                },
            ),
        }
    }
}

/// The failure reported where the driver hands an export an event that does
/// not answer the action it was given.
pub open spec fn unexpected_event() -> ErrorView {
    plain_failure(ErrorKind::Invocation, "Unexpected event for the state of the export"@)
}

/// The action that ends an export with `error`.
pub open spec fn failed(error: ErrorView, cleanup: Seq<Seq<char>>) -> ActionView {
    ActionView::Finish { result: Err(error), cleanup }
}

/// The action is an invocation in `stage`.
pub open spec fn runs(action: ActionView, stage: Stage) -> bool {
    action matches ActionView::Run { stage: s, .. } && s == stage
}

/// The action ends the export.
pub open spec fn finishes(action: ActionView) -> bool {
    action is Finish
}

/// The action ends the export with success.
pub open spec fn finishes_well(action: ActionView) -> bool {
    action matches ActionView::Finish { result, .. } && result is Ok
}

/// How many of `actions` are invocations in `stage`.
pub open spec fn count_runs(actions: Seq<ActionView>, stage: Stage) -> nat
    decreases actions.len(),
{
    if actions.len() == 0 {
        0
    } else {
        let rest = count_runs(actions.drop_first(), stage);
        if runs(actions[0], stage) {
            rest + 1
        } else {
            rest
        }
    }
}

/// No paths.
pub fn no_paths() -> (paths: Vec<String>)
    ensures
        paths.deep_view() == Seq::<Seq<char>>::empty(),
{
    let paths: Vec<String> = Vec::new();
    assert(paths.deep_view() =~= Seq::<Seq<char>>::empty());
    paths
}

/// The failure reported for an event that does not answer the action given.
pub fn unexpected() -> (e: ExportError)
    ensures
        e@ == unexpected_event(),
{
    ExportError::plain(ErrorKind::Invocation, "Unexpected event for the state of the export")
}

} // verus!
