use trimbot::concat::{ConcatExport, ConcatPhase};
use trimbot::error::{ErrorKind, ExportError, Stage};
use trimbot::export::{Action, Event};
use trimbot::resolution::Resolution;
use trimbot::runner::ProcessOutcome;
use trimbot::seconds::Seconds;

fn words(items: &[&str]) -> Vec<String> {
    items.iter().map(|s| s.to_string()).collect()
}

fn ok() -> Event {
    Event::Process(ProcessOutcome::Exited {
        code: Some(0),
        stdout: String::new(),
        stderr: String::new(),
    })
}

fn failure(stderr: &str) -> Event {
    Event::Process(ProcessOutcome::Exited {
        code: Some(1),
        stdout: String::new(),
        stderr: stderr.to_string(),
    })
}

fn unstarted(reason: &str) -> Event {
    Event::Process(ProcessOutcome::SpawnFailed { reason: reason.to_string() })
}

fn probed(duration: &str) -> Event {
    Event::Process(ProcessOutcome::Exited {
        code: Some(0),
        stdout: format!("{{\"format\": {{\"duration\": \"{}\"}}}}", duration),
        stderr: String::new(),
    })
}

fn text(content: &str) -> Event {
    Event::Text(Ok(content.to_string()))
}

fn done() -> Event {
    Event::Done(Ok(()))
}

fn undone(reason: &str) -> Event {
    Event::Done(Err(reason.to_string()))
}

fn secs(text: &str) -> Seconds {
    Seconds::parse(text).unwrap()
}

fn plain(resolution: Resolution) -> (ConcatExport, Action) {
    ConcatExport::start("list.txt".to_string(), "out.mp4".to_string(), resolution)
}

fn with_fades(fades: Vec<(Seconds, Seconds)>) -> (ConcatExport, Action) {
    ConcatExport::start_with_fades(
        "list.txt".to_string(),
        "out.mp4".to_string(),
        Resolution::Hd720,
        Some(fades),
        "/tmp/trimbot_fade_export".to_string(),
    )
}

fn expect_error(action: Action, kind: ErrorKind, message: &str, cleanup: &[&str]) {
    assert_eq!(
        action,
        Action::Finish {
            result: Err(ExportError { kind, message: message.to_string() }),
            cleanup: words(cleanup),
        }
    );
}

const TAIL: [&str; 8] =
    ["-c:v", "libx264", "-c:a", "aac", "-movflags", "+faststart", "-y", "out.mp4"];

fn with_tail(head: &[&str]) -> Vec<String> {
    let mut all = words(head);
    all.extend(words(&TAIL));
    all
}

const LIST: &str = "file 'a.mp4'\nfile 'b.mp4'\n";

fn demuxer_run(list: &str, scale: &[&str]) -> Action {
    let mut head = words(&["-f", "concat", "-safe", "0", "-i", list]);
    head.extend(words(scale));
    head.extend(words(&TAIL));
    Action::Run { stage: Stage::ConcatDemuxer, args: head }
}

#[test]
fn plain_export_reads_the_list_and_then_tries_the_demuxer() {
    let (mut export, first) = plain(Resolution::Hd1080);
    assert_eq!(first, Action::ReadText { path: "list.txt".to_string() });
    assert_eq!(export.phase(), ConcatPhase::ListForPlain);
    assert_eq!(export.step(&text(LIST)), demuxer_run("list.txt", &["-vf", "scale=-2:1080"]));
    assert_eq!(export.phase(), ConcatPhase::Demuxer);
    assert_eq!(export.step(&ok()), Action::Finish { result: Ok(0), cleanup: vec![] });
    assert_eq!(export.phase(), ConcatPhase::Done);
}

#[test]
fn failed_demuxer_falls_back_to_the_filter_graph_once() {
    let (mut export, _) = plain(Resolution::Hd720);
    export.step(&text(LIST));
    let read = export.step(&failure("Unsafe file name"));
    assert_eq!(read, Action::ReadText { path: "list.txt".to_string() });
    assert_eq!(export.phase(), ConcatPhase::ListForFilter);

    let run = export.step(&text(LIST));
    assert_eq!(
        run,
        Action::Run {
            stage: Stage::FilterConcat,
            args: with_tail(&[
                "-i",
                "a.mp4",
                "-i",
                "b.mp4",
                "-filter_complex",
                "[0:v][0:a][1:v][1:a]concat=n=2:v=1:a=1[v][a]",
                "-vf",
                "scale=-2:720",
                "-map",
                "[v]",
                "-map",
                "[a]",
            ]),
        }
    );
    assert_eq!(export.phase(), ConcatPhase::Filter);

    assert_eq!(export.step(&ok()), Action::Finish { result: Ok(0), cleanup: vec![] });
    assert_eq!(export.phase(), ConcatPhase::Done);
    expect_error(
        export.step(&ok()),
        ErrorKind::Invocation,
        "Unexpected event for the state of the export",
        &[],
    );
}

#[test]
fn only_the_fallbacks_outcome_is_returned() {
    let (mut export, _) = plain(Resolution::Source);
    export.step(&text(LIST));
    export.step(&failure("first diagnostic"));
    export.step(&text("file 'a.mp4'"));
    expect_error(
        export.step(&failure("second diagnostic")),
        ErrorKind::EngineFailure,
        "FFmpeg filter-concat failed: second diagnostic",
        &[],
    );
}

#[test]
fn demuxer_that_did_not_start_falls_back_too() {
    let (mut export, _) = plain(Resolution::Source);
    export.step(&text(LIST));
    assert_eq!(
        export.step(&unstarted("not found")),
        Action::ReadText { path: "list.txt".to_string() }
    );
}

#[test]
fn list_found_empty_when_read_back_is_a_validation_error() {
    let (mut export, _) = plain(Resolution::Source);
    export.step(&text(LIST));
    export.step(&failure("x"));
    expect_error(
        export.step(&text("# nothing here\n\n")),
        ErrorKind::Validation,
        "No valid input files found in concat list",
        &[],
    );
    assert_eq!(export.phase(), ConcatPhase::Done);
}

#[test]
fn empty_list_is_refused_before_any_engine_call() {
    let (mut export, first) = plain(Resolution::Source);
    assert_eq!(first, Action::ReadText { path: "list.txt".to_string() });
    expect_error(
        export.step(&text("")),
        ErrorKind::Validation,
        "No valid input files found in concat list",
        &[],
    );
    assert_eq!(export.phase(), ConcatPhase::Done);
}

#[test]
fn list_without_valid_lines_is_refused_before_any_engine_call() {
    let (mut export, first) = plain(Resolution::Source);
    assert_eq!(first, Action::ReadText { path: "list.txt".to_string() });
    expect_error(
        export.step(&text("# note\nfile a.mp4")),
        ErrorKind::Validation,
        "No valid input files found in concat list",
        &[],
    );

    let (mut export, first) = ConcatExport::start_filter(
        "list.txt".to_string(),
        "out.mp4".to_string(),
        Resolution::Source,
    );
    assert_eq!(first, Action::ReadText { path: "list.txt".to_string() });
    expect_error(
        export.step(&text("a.mp4\nb.mp4\nfile c.mp4\n")),
        ErrorKind::Validation,
        "No valid input files found in concat list",
        &[],
    );

    let (mut export, first) = with_fades(vec![(secs("1"), secs("1"))]);
    assert_eq!(first, Action::ReadText { path: "list.txt".to_string() });
    expect_error(
        export.step(&text("")),
        ErrorKind::Validation,
        "No valid input files found in concat list",
        &[],
    );
}

#[test]
fn unreadable_list_ends_a_plain_export() {
    let (mut export, _) = plain(Resolution::Source);
    expect_error(
        export.step(&Event::Text(Err("denied".to_string()))),
        ErrorKind::Invocation,
        "Failed to read concat list: denied",
        &[],
    );
}

#[test]
fn filter_export_reads_the_list_and_runs_the_graph() {
    let (mut export, _) = ConcatExport::start_filter(
        "list.txt".to_string(),
        "out.mp4".to_string(),
        Resolution::Source,
    );
    match export.step(&text("file 'a.mp4'\r\nfile 'b.mp4'\r\nfile 'c.mp4'")) {
        Action::Run { stage: Stage::FilterConcat, args } => {
            assert_eq!(args[..6], words(&["-i", "a.mp4", "-i", "b.mp4", "-i", "c.mp4"]));
            assert_eq!(args[7], "[0:v][0:a][1:v][1:a][2:v][2:a]concat=n=3:v=1:a=1[v][a]");
            assert_eq!(args[8], "-map");
        }
        other => panic!("unexpected action {:?}", other),
    }
    assert_eq!(export.step(&ok()), Action::Finish { result: Ok(0), cleanup: vec![] });
}

#[test]
fn unreadable_list_ends_the_export() {
    let (mut export, _) = ConcatExport::start_filter(
        "list.txt".to_string(),
        "out.mp4".to_string(),
        Resolution::Source,
    );
    expect_error(
        export.step(&Event::Text(Err("No such file or directory (os error 2)".to_string()))),
        ErrorKind::Invocation,
        "Failed to read concat list: No such file or directory (os error 2)",
        &[],
    );
    let (mut export, _) = with_fades(vec![]);
    expect_error(
        export.step(&Event::Text(Err("denied".to_string()))),
        ErrorKind::Invocation,
        "Failed to read concat list: denied",
        &[],
    );
}

#[test]
fn without_fades_the_export_is_a_plain_one() {
    let (export, first) = ConcatExport::start_with_fades(
        "list.txt".to_string(),
        "out.mp4".to_string(),
        Resolution::Source,
        None,
        "/tmp/w".to_string(),
    );
    assert_eq!(export.phase(), ConcatPhase::ListForPlain);
    assert_eq!(first, plain(Resolution::Source).1);
}

#[test]
fn clips_are_faded_or_copied_and_then_joined() {
    let ws = "/tmp/trimbot_fade_export";
    let (mut export, _) = with_fades(vec![
        (secs("1"), secs("0")),
        (secs("0"), secs("0")),
        (secs("0.5"), secs("2")),
    ]);
    assert_eq!(
        export.step(&text("file 'a.mp4'\nfile 'b.mp4'\nfile 'c.mp4'\n")),
        Action::MakeDir { path: ws.to_string() }
    );
    assert_eq!(export.phase(), ConcatPhase::Workspace);

    let probe = |path: &str| Action::Run {
        stage: Stage::Probe,
        args: words(&["-v", "quiet", "-print_format", "json", "-show_format", path]),
    };
    assert_eq!(export.step(&done()), probe("a.mp4"));
    assert_eq!(export.phase(), ConcatPhase::Probing { clip: 0 });
    assert_eq!(
        export.step(&probed("10")),
        Action::Run {
            stage: Stage::Fade,
            args: words(&[
                "-i",
                "a.mp4",
                "-vf",
                "fade=t=in:st=0:d=1",
                "-af",
                "afade=t=in:st=0:d=1",
                "-c:v",
                "libx264",
                "-c:a",
                "aac",
                "-movflags",
                "+faststart",
                "-y",
                "/tmp/trimbot_fade_export/clip_0.mp4",
            ]),
        }
    );
    assert_eq!(export.phase(), ConcatPhase::Fading { clip: 0 });

    assert_eq!(export.step(&ok()), probe("b.mp4"));
    assert_eq!(
        export.step(&probed("4")),
        Action::CopyFile {
            from: "b.mp4".to_string(),
            to: "/tmp/trimbot_fade_export/clip_1.mp4".to_string(),
        }
    );
    assert_eq!(export.phase(), ConcatPhase::Copying { clip: 1 });

    assert_eq!(export.step(&done()), probe("c.mp4"));
    match export.step(&probed("6.5")) {
        Action::Run { stage: Stage::Fade, args } => {
            assert_eq!(args[1], "c.mp4");
            assert_eq!(args[3], "fade=t=in:st=0:d=0.5,fade=t=out:st=4.5:d=2");
            assert_eq!(args[5], "afade=t=in:st=0:d=0.5,afade=t=out:st=4.5:d=2");
            assert_eq!(args[13], "/tmp/trimbot_fade_export/clip_2.mp4");
        }
        other => panic!("unexpected action {:?}", other),
    }

    assert_eq!(
        export.step(&ok()),
        Action::WriteText {
            path: "/tmp/trimbot_fade_export/processed_list.txt".to_string(),
            text: "file '/tmp/trimbot_fade_export/clip_0.mp4'\nfile '/tmp/trimbot_fade_export/clip_1.mp4'\nfile '/tmp/trimbot_fade_export/clip_2.mp4'\n".to_string(),
        }
    );
    assert_eq!(export.phase(), ConcatPhase::WritingList);

    assert_eq!(
        export.step(&done()),
        Action::Run {
            stage: Stage::ConcatDemuxer,
            args: with_tail(&[
                "-f",
                "concat",
                "-safe",
                "0",
                "-i",
                "/tmp/trimbot_fade_export/processed_list.txt",
                "-vf",
                "scale=-2:720",
            ]),
        }
    );
    assert_eq!(export.phase(), ConcatPhase::Joining);
    assert_eq!(export.step(&ok()), Action::Finish { result: Ok(0), cleanup: words(&[ws]) });
    assert_eq!(export.phase(), ConcatPhase::Done);
}

#[test]
fn clips_beyond_the_fades_are_copied() {
    let (mut export, _) = with_fades(vec![]);
    export.step(&text("file 'a.mp4'\n"));
    export.step(&done());
    assert_eq!(
        export.step(&probed("3")),
        Action::CopyFile {
            from: "a.mp4".to_string(),
            to: "/tmp/trimbot_fade_export/clip_0.mp4".to_string(),
        }
    );
}

#[test]
fn failed_join_of_the_processed_clips_falls_back_to_the_filter_graph() {
    let ws = "/tmp/trimbot_fade_export";
    let (mut export, _) = with_fades(vec![(secs("1"), secs("0"))]);
    export.step(&text(LIST));
    export.step(&done());
    export.step(&probed("3"));
    export.step(&ok());
    export.step(&probed("4"));
    export.step(&done());
    assert_eq!(
        export.step(&done()),
        demuxer_run("/tmp/trimbot_fade_export/processed_list.txt", &["-vf", "scale=-2:720"])
    );
    assert_eq!(
        export.step(&failure("bad list")),
        Action::Run {
            stage: Stage::FilterConcat,
            args: with_tail(&[
                "-i",
                "/tmp/trimbot_fade_export/clip_0.mp4",
                "-i",
                "/tmp/trimbot_fade_export/clip_1.mp4",
                "-filter_complex",
                "[0:v][0:a][1:v][1:a]concat=n=2:v=1:a=1[v][a]",
                "-vf",
                "scale=-2:720",
                "-map",
                "[v]",
                "-map",
                "[a]",
            ]),
        }
    );
    assert_eq!(export.phase(), ConcatPhase::Rejoining);
    assert_eq!(export.step(&ok()), Action::Finish { result: Ok(0), cleanup: words(&[ws]) });
    assert_eq!(export.phase(), ConcatPhase::Done);
}

#[test]
fn failed_fallback_after_fades_is_what_the_export_returns() {
    let (mut export, _) = with_fades(vec![]);
    export.step(&text("file 'a.mp4'\n"));
    export.step(&done());
    export.step(&probed("3"));
    export.step(&done());
    export.step(&done());
    export.step(&failure("bad list"));
    expect_error(
        export.step(&failure("no encoder")),
        ErrorKind::EngineFailure,
        "FFmpeg filter-concat failed: no encoder",
        &["/tmp/trimbot_fade_export"],
    );
}

#[test]
fn every_failure_after_the_workspace_lists_it_for_removal() {
    let ws = ["/tmp/trimbot_fade_export"];
    let list = "file 'a.mp4'\nfile 'b.mp4'\n";
    let fades = || vec![(secs("1"), secs("1"))];

    let (mut export, _) = with_fades(fades());
    export.step(&text(list));
    expect_error(
        export.step(&undone("read-only file system")),
        ErrorKind::Invocation,
        "Failed to create temp directory: read-only file system",
        &ws,
    );

    let (mut export, _) = with_fades(fades());
    export.step(&text(list));
    export.step(&done());
    expect_error(
        export.step(&failure("moov atom not found")),
        ErrorKind::Probe,
        "FFprobe failed: moov atom not found",
        &ws,
    );

    let (mut export, _) = with_fades(fades());
    export.step(&text(list));
    export.step(&done());
    export.step(&probed("5"));
    expect_error(
        export.step(&failure("encoder missing")),
        ErrorKind::EngineFailure,
        "FFmpeg fade failed: encoder missing",
        &ws,
    );

    let (mut export, _) = with_fades(fades());
    export.step(&text(list));
    export.step(&done());
    export.step(&probed("5"));
    export.step(&ok());
    export.step(&probed("5"));
    expect_error(
        export.step(&undone("disk full")),
        ErrorKind::Invocation,
        "Failed to copy file: disk full",
        &ws,
    );

    let (mut export, _) = with_fades(fades());
    export.step(&text("file 'a.mp4'"));
    export.step(&done());
    export.step(&probed("5"));
    export.step(&ok());
    expect_error(
        export.step(&undone("disk full")),
        ErrorKind::Invocation,
        "Failed to write temp concat list: disk full",
        &ws,
    );

    let (mut export, _) = with_fades(fades());
    export.step(&text(list));
    export.step(&done());
    expect_error(
        export.step(&done()),
        ErrorKind::Invocation,
        "Unexpected event for the state of the export",
        &ws,
    );
}

#[test]
fn event_of_the_wrong_kind_ends_a_plain_export() {
    let (mut export, _) = plain(Resolution::Source);
    expect_error(
        export.step(&done()),
        ErrorKind::Invocation,
        "Unexpected event for the state of the export",
        &[],
    );
    assert_eq!(export.phase(), ConcatPhase::Done);
}
