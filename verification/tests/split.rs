use trimbot::error::{ErrorKind, ExportError, Stage};
use trimbot::export::{Action, Event};
use trimbot::runner::ProcessOutcome;
use trimbot::seconds::Seconds;
use trimbot::split::{SplitExport, SplitPhase};

fn words(items: &[&str]) -> Vec<String> {
    items.iter().map(|s| s.to_string()).collect()
}

fn exited(code: i32, stderr: &str) -> Event {
    Event::Process(ProcessOutcome::Exited {
        code: Some(code),
        stdout: String::new(),
        stderr: stderr.to_string(),
    })
}

fn start(split: &str, total: &str) -> (SplitExport, Action) {
    SplitExport::start(
        "in.mp4".to_string(),
        Seconds::parse(split).unwrap(),
        "left.mp4".to_string(),
        "right.mp4".to_string(),
        Seconds::parse(total).unwrap(),
    )
}

fn cut(start: &str, duration: &str, output: &str) -> Vec<String> {
    words(&[
        "-ss", start, "-i", "in.mp4", "-t", duration, "-c:v", "libx264", "-c:a", "aac",
        "-movflags", "+faststart", "-y", output,
    ])
}

fn failure(kind: ErrorKind, message: &str) -> Action {
    Action::Finish {
        result: Err(ExportError { kind, message: message.to_string() }),
        cleanup: vec![],
    }
}

#[test]
fn left_part_is_cut_first_and_the_right_part_after_it_succeeded() {
    let (mut export, first) = start("4", "10.5");
    assert_eq!(first, Action::Run { stage: Stage::SplitLeft, args: cut("0", "4", "left.mp4") });
    assert_eq!(export.phase(), SplitPhase::Left);
    assert_eq!(
        export.step(&exited(0, "")),
        Action::Run { stage: Stage::SplitRight, args: cut("4", "6.5", "right.mp4") }
    );
    assert_eq!(export.phase(), SplitPhase::Right);
    assert_eq!(export.step(&exited(0, "")), Action::Finish { result: Ok(0), cleanup: vec![] });
    assert_eq!(export.phase(), SplitPhase::Done);
}

#[test]
fn failed_left_part_ends_the_split_without_the_right_part() {
    let (mut export, _) = start("4", "10");
    assert_eq!(
        export.step(&exited(1, "no space left")),
        failure(ErrorKind::EngineFailure, "FFmpeg split (left part) failed: no space left")
    );
    assert_eq!(export.phase(), SplitPhase::Done);
    assert_eq!(
        export.step(&exited(0, "")),
        failure(ErrorKind::Invocation, "Unexpected event for the state of the export")
    );
}

#[test]
fn failed_right_part_fails_the_split() {
    let (mut export, _) = start("4", "10");
    export.step(&exited(0, ""));
    assert_eq!(
        export.step(&exited(2, "broken pipe")),
        failure(ErrorKind::EngineFailure, "FFmpeg split (right part) failed: broken pipe")
    );
}

#[test]
fn left_part_that_did_not_start_ends_the_split() {
    let (mut export, _) = start("4", "10");
    let event = Event::Process(ProcessOutcome::SpawnFailed { reason: "not found".to_string() });
    assert_eq!(
        export.step(&event),
        failure(ErrorKind::Invocation, "Failed to execute FFmpeg split (left part): not found")
    );
}

#[test]
fn split_below_the_floor_invokes_nothing() {
    let (export, first) = start("0.1", "10.0");
    assert_eq!(
        first,
        failure(ErrorKind::Validation, "Split would create segments too short (< 0.2s)")
    );
    assert_eq!(export.phase(), SplitPhase::Done);
    let (_, first) = start("9.9", "10.0");
    assert_eq!(
        first,
        failure(ErrorKind::Validation, "Split would create segments too short (< 0.2s)")
    );
}

#[test]
fn split_outside_the_clip_invokes_nothing() {
    for (split, total) in [("0", "10"), ("-1", "10"), ("10", "10"), ("12", "10")] {
        let (export, first) = start(split, total);
        assert_eq!(first, failure(ErrorKind::Validation, "Invalid split time"));
        assert_eq!(export.phase(), SplitPhase::Done);
    }
}

#[test]
fn event_of_the_wrong_kind_ends_the_split() {
    let (mut export, _) = start("4", "10");
    assert_eq!(
        export.step(&Event::Done(Ok(()))),
        failure(ErrorKind::Invocation, "Unexpected event for the state of the export")
    );
}
