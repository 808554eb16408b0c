//! Export orchestration for a video editor that leaves all decoding, encoding
//! and filtering to an external engine. The library decides which invocations
//! an export takes and what each is given; it validates what the caller asks
//! for, falls back where a strategy fails, reads what the inspection tool
//! reports, and keeps track of the intermediate files to remove. It starts no
//! process and touches no file itself: a driver carries out the actions that
//! it hands out and reports back how they went.
//!
//! Times are whole microseconds (`seconds`), argument lists are vectors of
//! strings (`args`), and what takes several steps is a state machine
//! (`concat`, `crossfade`, `split`) over the actions and events of `export`.

pub mod args;
pub mod concat;
pub mod concat_list;
pub mod config;
pub mod crossfade;
pub mod error;
pub mod export;
pub mod json;
pub mod probe;
pub mod resolution;
pub mod runner;
pub mod seconds;
pub mod split;
pub mod text;
