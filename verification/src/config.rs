//! The engine's location: set once at startup, read by every operation.

use crate::error::{plain_failure, ErrorKind, ExportError};
use vstd::prelude::*;
use vstd::string::*;

verus! {

/// Seconds allowed to an invocation where the caller names no bound.
pub const FFMPEG_TIMEOUT_SECS: u64 = 5 * 60;

/// Seconds allowed to a quick operation.
pub const FFMPEG_TIMEOUT_SHORT: u64 = 30;

/// Seconds allowed to an operation on a large file.
pub const FFMPEG_TIMEOUT_LONG: u64 = 30 * 60;

/// Where the engine's executable is, once that has been settled.
pub struct EngineConfig {
    path: Option<String>,
}

impl View for EngineConfig {
    type V = Option<Seq<char>>;

    closed spec fn view(&self) -> Option<Seq<char>> {
        match self.path {
            Some(p) => Some(p@),
            None => None,
        }
    }
}

impl EngineConfig {
    /// A configuration in which the location is not yet set.
    pub fn new() -> (config: EngineConfig)
        ensures
            config@ is None,
    {
        EngineConfig { path: None }
    }

    /// Sets the location. It can be set once: a second attempt is refused and
    /// leaves the first location in place.
    pub fn init(&mut self, path: String) -> (r: Result<(), ExportError>)
        ensures
            old(self)@ is None ==> r is Ok && final(self)@ == Some(path@),
            old(self)@ is Some ==> final(self)@ == old(self)@ && r is Err && r->Err_0@
                == plain_failure(ErrorKind::Configuration, "Failed to set FFmpeg path"@),
    {
        if self.path.is_some() {
            Err(ExportError::plain(ErrorKind::Configuration, "Failed to set FFmpeg path"))
        } else {
            self.path = Some(path);
            Ok(())
        }
    }
}

/// The engine's location, or a configuration error where it was never set.
pub fn get_ffmpeg_path(config: &EngineConfig) -> (r: Result<&String, ExportError>)
    ensures
        match config@ {
            Some(p) => r is Ok && r->Ok_0@ == p,
            None => r is Err && r->Err_0@ == plain_failure(
                ErrorKind::Configuration,
                "FFmpeg path not initialized"@,
            ),
        },
{
    match &config.path {
        Some(p) => Ok(p),
        None => Err(ExportError::plain(ErrorKind::Configuration, "FFmpeg path not initialized")),
    }
}

} // verus!
