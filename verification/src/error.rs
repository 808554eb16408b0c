//! What can go wrong in an export, and the wording of each failure.

use vstd::prelude::*;
use vstd::string::*;

verus! {

/// The classes of failure.
#[derive(Clone, Copy, Debug, PartialEq, Eq, Structural)]
pub enum ErrorKind {
    /// The engine's location is unset, or was set twice.
    Configuration,
    /// The engine could not be started or waited for.
    Invocation,
    /// The engine ran and reported a failure.
    EngineFailure,
    /// The duration of a file could not be found out.
    Probe,
    /// The caller's parameters are not acceptable.
    Validation,
    /// The engine ran longer than allowed and was ended.
    Timeout,
}

/// The invocations of the engine, by the purpose that names them in messages.
#[derive(Clone, Copy, Debug, PartialEq, Eq, Structural)]
pub enum Stage {
    Engine,
    Fade,
    Trim,
    SplitLeft,
    SplitRight,
    Transcode,
    ConcatDemuxer,
    FilterConcat,
    CrossfadeStep,
    Scaling,
    Finalize,
    Probe,
}

/// A failure: its class and the text shown to the caller.
#[derive(Clone, Debug, PartialEq, Eq)]
pub struct ExportError {
    pub kind: ErrorKind,
    pub message: String,
}

/// An `ExportError` with its message as a sequence of characters.
pub struct ErrorView {
    pub kind: ErrorKind,
    pub message: Seq<char>,
}

impl View for ExportError {
    type V = ErrorView;

    open spec fn view(&self) -> ErrorView {
        ErrorView { kind: self.kind, message: self.message@ }
    }
}

/// The name under which a stage appears in messages.
pub open spec fn stage_name(stage: Stage) -> Seq<char> {
    match stage {
        Stage::Engine => "FFmpeg"@,
        Stage::Fade => "FFmpeg fade"@,
        Stage::Trim => "FFmpeg trim"@,
        Stage::SplitLeft => "FFmpeg split (left part)"@,
        Stage::SplitRight => "FFmpeg split (right part)"@,
        Stage::Transcode => "FFmpeg transcode"@,
        Stage::ConcatDemuxer => "FFmpeg concat demuxer"@,
        Stage::FilterConcat => "FFmpeg filter-concat"@,
        Stage::CrossfadeStep => "FFmpeg xfade step"@,
        Stage::Scaling => "FFmpeg scaling"@,
        Stage::Finalize => "Finalization"@,
        Stage::Probe => "FFprobe"@,
    }
}

/// The class of a failure reported by the engine in `stage`: a probe error
/// for the inspection, an engine failure for every other stage.
pub open spec fn reported_kind(stage: Stage) -> ErrorKind {
    if stage == Stage::Probe {
        ErrorKind::Probe
    } else {
        ErrorKind::EngineFailure
    }
}

/// The class of a failure to start the engine in `stage`: a probe error for
/// the inspection, an invocation error for every other stage.
pub open spec fn unstarted_kind(stage: Stage) -> ErrorKind {
    if stage == Stage::Probe {
        ErrorKind::Probe
    } else {
        ErrorKind::Invocation
    }
}

/// The failure of a stage whose invocation ran and reported `diagnostic`: the
/// stage's name, `failed:`, and the diagnostic text as it came.
pub open spec fn engine_failure(stage: Stage, diagnostic: Seq<char>) -> ErrorView {
    ErrorView {
        kind: reported_kind(stage),
        message: stage_name(stage) + " failed: "@ + diagnostic,
    }
}

/// The failure of a stage whose invocation could not be started.
pub open spec fn spawn_failure(stage: Stage, reason: Seq<char>) -> ErrorView {
    ErrorView {
        kind: unstarted_kind(stage),
        message: if stage == Stage::Finalize {
            "Failed to finalize output: "@ + reason
        } else {
            "Failed to execute "@ + stage_name(stage) + ": "@ + reason
        },
    }
}

/// A failure of class `kind` whose message is `prefix` followed by `detail`.
pub open spec fn failure(kind: ErrorKind, prefix: Seq<char>, detail: Seq<char>) -> ErrorView {
    ErrorView { kind, message: prefix + detail }
}

/// A failure of class `kind` with the message `message`.
pub open spec fn plain_failure(kind: ErrorKind, message: Seq<char>) -> ErrorView {
    ErrorView { kind, message }
}

/// A result of an export with the error's message as a sequence of characters.
pub open spec fn result_view(r: Result<i32, ExportError>) -> Result<i32, ErrorView> {
    match r {
        Ok(code) => Ok(code),
        Err(e) => Err(e@),
    }
}

impl Stage {
    /// The name under which the stage appears in messages.
    pub fn name(self) -> (s: &'static str)
        ensures
            s@ == stage_name(self),
    {
        match self {
            Stage::Engine => "FFmpeg",
            Stage::Fade => "FFmpeg fade",
            Stage::Trim => "FFmpeg trim",
            Stage::SplitLeft => "FFmpeg split (left part)",
            Stage::SplitRight => "FFmpeg split (right part)",
            Stage::Transcode => "FFmpeg transcode",
            Stage::ConcatDemuxer => "FFmpeg concat demuxer",
            Stage::FilterConcat => "FFmpeg filter-concat",
            Stage::CrossfadeStep => "FFmpeg xfade step",
            Stage::Scaling => "FFmpeg scaling",
            Stage::Finalize => "Finalization",
            Stage::Probe => "FFprobe",
        }
    }
}

impl ExportError {
    /// A failure of class `kind` whose message is `prefix` followed by `detail`.
    pub fn new(kind: ErrorKind, prefix: &str, detail: &str) -> (e: ExportError)
        ensures
            e@ == failure(kind, prefix@, detail@),
    {
        let mut message = String::from_str(prefix);
        message.append(detail);
        ExportError { kind, message }
    }

    /// A failure of class `kind` with the message `message`.
    pub fn plain(kind: ErrorKind, message: &str) -> (e: ExportError)
        ensures
            e@ == plain_failure(kind, message@),
    {
        ExportError { kind, message: String::from_str(message) }
    }

    /// The failure of a stage whose invocation ran and reported `diagnostic`.
    pub fn engine_failure(stage: Stage, diagnostic: &str) -> (e: ExportError)
        ensures
            e@ == engine_failure(stage, diagnostic@),
    {
        let mut message = String::from_str(stage.name());
        message.append(" failed: ");
        message.append(diagnostic);
        let kind = if stage == Stage::Probe {
            ErrorKind::Probe
        } else {
            ErrorKind::EngineFailure
        };
        ExportError { kind, message }
    }

    /// The failure of a stage whose invocation could not be started.
    pub fn spawn_failure(stage: Stage, reason: &str) -> (e: ExportError)
        ensures
            e@ == spawn_failure(stage, reason@),
    {
        let mut message = String::new();
        if stage == Stage::Finalize {
            message.append("Failed to finalize output: ");
        } else {
            message.append("Failed to execute ");
            message.append(stage.name());
            message.append(": ");
        }
        message.append(reason);
        assert(message@ =~= spawn_failure(stage, reason@).message);
        let kind = if stage == Stage::Probe {
            ErrorKind::Probe
        } else {
            ErrorKind::Invocation
        };
        ExportError { kind, message }
    }

    /// The text shown to the caller.
    pub fn to_text(&self) -> (s: String)
        ensures
            s@ == self@.message,
    {
        self.message.clone()
    }
}

} // verus!
