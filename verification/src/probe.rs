//! The media prober's reading of what the inspection tool reports: the
//! duration of a file, from the field `format.duration` of its JSON report.

use crate::error::{
    engine_failure, failure, plain_failure, spawn_failure, ErrorKind, ErrorView, ExportError,
    Stage,
};
use crate::json::{
    error_text, json_error_text, json_member, json_number, json_parsed, json_string, member,
    number_text, parse,
};
use crate::runner::{OutcomeView, ProcessOutcome};
use crate::seconds::{number_micros, Seconds};
use vstd::prelude::*;
use vstd::string::*;

verus! {

/// The field `format.duration` of a report, where the report has one.
pub open spec fn format_duration(report: serde_json::Value) -> Option<serde_json::Value> {
    match json_member(report, "format"@) {
        Some(format) => json_member(format, "duration"@),
        None => None,
    }
}

/// The duration in microseconds that the field holds: as a string that is a
/// number of seconds, or else as a number. Either may be in decimal or in
/// scientific notation.
pub open spec fn field_micros(text: Option<Seq<char>>, number: Option<Seq<char>>) -> Option<int> {
    if text is Some && number_micros(text->Some_0) is Some {
        number_micros(text->Some_0)
    } else if number is Some {
        number_micros(number->Some_0)
    } else {
        None
    }
}

/// The duration in microseconds that a report gives, where it gives one.
pub open spec fn report_micros(report: serde_json::Value) -> Option<int> {
    match format_duration(report) {
        Some(field) => field_micros(json_string(field), json_number(field)),
        None => None,
    }
}

/// The failure reported where a report holds no duration that can be read.
pub open spec fn no_duration() -> ErrorView {
    plain_failure(ErrorKind::Probe, "Could not determine media duration"@)
}

/// What the prober makes of the text that the inspection tool wrote: the
/// duration, or a probe error where the text is no JSON or holds no duration.
pub open spec fn report_duration(stdout: Seq<char>) -> Result<int, ErrorView> {
    match json_parsed(stdout) {
        Ok(report) => match report_micros(report) {
            Some(micros) => Ok(micros),
            None => Err(no_duration()),
        },
        Err(error) => Err(
            failure(ErrorKind::Probe, "Failed to parse FFprobe JSON: "@, json_error_text(error)),
        ),
    }
}

/// What the prober makes of an inspection: the duration that the report
/// gives, or a probe error where the tool failed or its report cannot be read.
pub open spec fn probe_result(outcome: OutcomeView) -> Result<int, ErrorView> {
    match report_of(outcome) {
        Ok(stdout) => report_duration(stdout),
        Err(error) => Err(error),
    }
}

/// What an inspection wrote, where it succeeded; else the probe error that
/// tells why it did not.
pub open spec fn report_of(outcome: OutcomeView) -> Result<Seq<char>, ErrorView> {
    match outcome {
        OutcomeView::Exited { code, stdout, stderr } => if code == Some(0i32) {
            Ok(stdout)
        } else {
            Err(engine_failure(Stage::Probe, stderr))
        },
        OutcomeView::SpawnFailed { reason } => Err(spawn_failure(Stage::Probe, reason)),
    }
}

/// A duration or a failure, with the duration in microseconds and the
/// failure's message as a sequence of characters.
pub open spec fn duration_view(r: Result<Seconds, ExportError>) -> Result<int, ErrorView> {
    match r {
        Ok(t) => Ok(t.micros as int),
        Err(e) => Err(e@),
    }
}

/// A text, where one is given, as a sequence of characters.
pub open spec fn text_view(text: Option<&str>) -> Option<Seq<char>> {
    match text {
        Some(t) => Some(t@),
        None => None,
    }
}

/// The duration that the field `format.duration` holds, given what it holds
/// as a string and what it holds as a number.
pub fn duration_from_field(text: Option<&str>, number: Option<&str>) -> (r: Result<
    Seconds,
    ExportError,
>)
    ensures
        duration_view(r) == match field_micros(text_view(text), text_view(number)) {
            Some(micros) => Ok::<int, ErrorView>(micros),
            None => Err(no_duration()),
        },
{
    match text {
        Some(t) => match Seconds::parse_number(t) {
            Some(duration) => {
                return Ok(duration);
            },
            None => {},
        },
        None => {},
    }
    match number {
        Some(n) => match Seconds::parse_number(n) {
            Some(duration) => {
                return Ok(duration);
            },
            None => {},
        },
        None => {},
    }
    Err(ExportError::plain(ErrorKind::Probe, "Could not determine media duration"))
}

/// The duration that the inspection tool's JSON report `stdout` gives.
pub fn duration_from_report(stdout: &str) -> (r: Result<Seconds, ExportError>)
    ensures
        duration_view(r) == report_duration(stdout@),
{
    let report = match parse(stdout) {
        Ok(report) => report,
        Err(error) => {
            return Err(
                ExportError::new(
                    ErrorKind::Probe,
                    "Failed to parse FFprobe JSON: ",
                    error_text(&error).as_str(),
                ),
            );
        },
    };
    let field = match member(&report, "format") {
        Some(format) => member(format, "duration"),
        None => None,
    };
    match field {
        Some(field) => {
            let number = number_text(field);
            let number_str = match &number {
                Some(n) => Some(n.as_str()),
                None => None,
            };
            duration_from_field(field.as_str(), number_str)
        },
        None => Err(ExportError::plain(ErrorKind::Probe, "Could not determine media duration")),
    }
}

/// The report that an inspection wrote.
pub fn report_text(outcome: &ProcessOutcome) -> (r: Result<String, ExportError>)
    ensures
        match r {
            Ok(text) => report_of(outcome@) == Ok::<Seq<char>, ErrorView>(text@),
            Err(e) => report_of(outcome@) == Err::<Seq<char>, ErrorView>(e@),
        },
{
    match outcome {
        ProcessOutcome::Exited { code, stdout, stderr } => {
            match code {
                Some(0) => Ok(stdout.clone()),
                _ => Err(ExportError::engine_failure(Stage::Probe, stderr.as_str())),
            }
        },
        ProcessOutcome::SpawnFailed { reason } => Err(
            ExportError::spawn_failure(Stage::Probe, reason.as_str()),
        ),
    }
}

/// The duration that an inspection found.
pub fn probe_duration(outcome: &ProcessOutcome) -> (r: Result<Seconds, ExportError>)
    ensures
        duration_view(r) == probe_result(outcome@),
{
    match report_text(outcome) {
        Ok(stdout) => duration_from_report(stdout.as_str()),
        Err(error) => Err(error),
    }
}

} // verus!
