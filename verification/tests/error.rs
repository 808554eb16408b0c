use trimbot::error::{ErrorKind, ExportError, Stage};

#[test]
fn failure_text_is_the_stage_then_the_diagnostic_as_it_came() {
    let e = ExportError::engine_failure(Stage::CrossfadeStep, "  line one\nline two  ");
    assert_eq!(e.kind, ErrorKind::EngineFailure);
    assert_eq!(e.to_text(), "FFmpeg xfade step failed:   line one\nline two  ");
    assert_eq!(ExportError::engine_failure(Stage::Engine, "").message, "FFmpeg failed: ");
}

#[test]
fn message_is_prefix_then_detail() {
    let e = ExportError::new(ErrorKind::Invocation, "Failed to copy file: ", "denied");
    assert_eq!(e, ExportError { kind: ErrorKind::Invocation, message: "Failed to copy file: denied".to_string() });
    let e = ExportError::plain(ErrorKind::Validation, "Invalid split time");
    assert_eq!(e.to_text(), "Invalid split time");
}

#[test]
fn stage_names() {
    assert_eq!(Stage::Engine.name(), "FFmpeg");
    assert_eq!(Stage::Probe.name(), "FFprobe");
    assert_eq!(Stage::Finalize.name(), "Finalization");
    assert_eq!(Stage::SplitRight.name(), "FFmpeg split (right part)");
}

#[test]
fn spawn_failure_names_the_stage() {
    let e = ExportError::spawn_failure(Stage::Scaling, "not found");
    assert_eq!(e.kind, ErrorKind::Invocation);
    assert_eq!(e.message, "Failed to execute FFmpeg scaling: not found");
}
