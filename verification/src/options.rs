//! The decisions that `zine extract` takes from its command-line options:
//! the output format, whether to pull monthly cadence records, and whether
//! to record the output as a quarterly cadence record.

use vstd::prelude::*;

use crate::cadence_intake::CadenceIntakeConfig;
use crate::text::same_text;

verus! {

/// Output format of `zine extract`.
#[derive(Debug, Clone, Copy, PartialEq, Eq, Structural)]
pub enum Format {
    /// Pretty-printed JSON.
    Json,
    /// Human-readable text.
    Text,
}

/// The format named by `--format`: `json` or `text`; any other name is
/// refused (`None`).
pub fn parse_format(name: &str) -> (format: Option<Format>)
    ensures
        format == (if name@ == "json"@ {
            Some(Format::Json)
        } else if name@ == "text"@ {
            Some(Format::Text)
        } else {
            None
        }),
{
    if same_text(name, "json") {
        Some(Format::Json)
    } else if same_text(name, "text") {
        Some(Format::Text)
    } else {
        None
    }
}

/// The moments kept from each monthly letter when `--cadence-monthly` is set.
pub const CADENCE_TOP_K: usize = 15;

/// The cadence intake configuration: with `--cadence-monthly`, look back
/// `cadence_since` and keep [`CADENCE_TOP_K`] moments per record; without it,
/// no intake.
pub fn cadence_config(cadence_monthly: bool, cadence_since: &str) -> (cfg: Option<CadenceIntakeConfig>)
    ensures
        cfg is Some <==> cadence_monthly,
        cfg matches Some(c) ==> c.since@ == cadence_since@ && c.top_k == CADENCE_TOP_K,
{
    if cadence_monthly {
        Some(CadenceIntakeConfig { since: String::from_str(cadence_since), top_k: CADENCE_TOP_K })
    } else {
        None
    }
}

/// Whether to record the output as a quarterly cadence record:
/// `--cadence-record` when given, else whether `--cadence-monthly` is set.
pub fn should_record(cadence_record: Option<bool>, cadence_monthly: bool) -> (record: bool)
    ensures
        record == match cadence_record {
            Some(b) => b,
            None => cadence_monthly,
        },
{
    match cadence_record {
        Some(b) => b,
        None => cadence_monthly,
    }
}

/// What to do about the quarterly cadence record once the moments are out.
#[derive(Debug, Clone, Copy, PartialEq, Eq, Structural)]
pub enum RecordAction {
    /// Recording is off.
    Skip,
    /// Record the output, with the bundle path given.
    Record,
    /// Recording is on but `--cadence-bundle-path` is missing: an error.
    MissingBundlePath,
}

/// The recording decision: nothing when [`should_record`] says no; else record
/// when `--cadence-bundle-path` is given, and refuse when it is not.
pub fn record_action(cadence_record: Option<bool>, cadence_monthly: bool, has_bundle_path: bool) -> (action: RecordAction)
    ensures
        action == (if !(match cadence_record {
            Some(b) => b,
            None => cadence_monthly,
        }) {
            RecordAction::Skip
        } else if has_bundle_path {
            RecordAction::Record
        } else {
            RecordAction::MissingBundlePath
        }),
{
    if !should_record(cadence_record, cadence_monthly) {
        RecordAction::Skip
    } else if has_bundle_path {
        RecordAction::Record
    } else {
        RecordAction::MissingBundlePath
    }
}

/// How a run of `zine extract` ended.
#[derive(Debug, Clone, Copy, PartialEq, Eq, Structural)]
pub enum RunOutcome {
    /// The moments were printed.
    Done,
    /// `--since` did not parse.
    BadSince,
    /// `--format` named neither `json` nor `text`.
    BadFormat,
    /// The transcript root held no `*.jsonl` files.
    NoJsonlFiles,
    /// Extraction failed in another way.
    ExtractFailed,
    /// Recording was asked for without `--cadence-bundle-path`.
    MissingBundlePath,
    /// The report could not be serialised to JSON.
    SerialiseFailed,
}

/// The exit code of each outcome: 0 on success, 2 for a usage problem (a bad
/// `--since` or `--format`, no transcripts, recording without a bundle path),
/// 1 for any other failure.
pub open spec fn exit_code_of(outcome: RunOutcome) -> u8 {
    match outcome {
        RunOutcome::Done => 0,
        RunOutcome::BadSince => 2,
        RunOutcome::BadFormat => 2,
        RunOutcome::NoJsonlFiles => 2,
        RunOutcome::MissingBundlePath => 2,
        RunOutcome::ExtractFailed => 1,
        RunOutcome::SerialiseFailed => 1,
    }
}

/// The process exit code for how a run ended; see [`exit_code_of`].
pub fn exit_code(outcome: RunOutcome) -> (code: u8)
    ensures
        code == exit_code_of(outcome),
{
    match outcome {
        RunOutcome::Done => 0,
        RunOutcome::BadSince | RunOutcome::BadFormat | RunOutcome::NoJsonlFiles
        | RunOutcome::MissingBundlePath => 2,
        RunOutcome::ExtractFailed | RunOutcome::SerialiseFailed => 1,
    }
}

/// How transcript extraction ended.
#[derive(Debug, Clone, Copy, PartialEq, Eq, Structural)]
pub enum ExtractStatus {
    /// The report was built.
    Extracted,
    /// The transcript root held no `*.jsonl` files.
    NoJsonlFiles,
    /// Extraction failed in another way.
    Failed,
}

/// How a run ends, checked in the order `zine extract` takes its steps:
/// `--since`, then `--format`, then extraction, then recording, then output
/// (where only JSON serialisation can fail).
pub open spec fn run_outcome_of(
    since_ok: bool,
    format: Option<Format>,
    extract: ExtractStatus,
    record: RecordAction,
    serialised: bool,
) -> RunOutcome {
    if !since_ok {
        RunOutcome::BadSince
    } else if format is None {
        RunOutcome::BadFormat
    } else if extract == ExtractStatus::NoJsonlFiles {
        RunOutcome::NoJsonlFiles
    } else if extract == ExtractStatus::Failed {
        RunOutcome::ExtractFailed
    } else if record == RecordAction::MissingBundlePath {
        RunOutcome::MissingBundlePath
    } else if format == Some(Format::Json) && !serialised {
        RunOutcome::SerialiseFailed
    } else {
        RunOutcome::Done
    }
}

/// The outcome of a run of `zine extract`, given whether `--since` parsed, the
/// format that `--format` named ([`parse_format`]), how extraction ended, the
/// recording decision ([`record_action`]) and whether the JSON report
/// serialised; see [`run_outcome_of`].
pub fn run_outcome(
    since_ok: bool,
    format: Option<Format>,
    extract: ExtractStatus,
    record: RecordAction,
    serialised: bool,
) -> (outcome: RunOutcome)
    ensures
        outcome == run_outcome_of(since_ok, format, extract, record, serialised),
{
    if !since_ok {
        RunOutcome::BadSince
    } else if format.is_none() {
        RunOutcome::BadFormat
    } else {
        match extract {
            ExtractStatus::NoJsonlFiles => RunOutcome::NoJsonlFiles,
            ExtractStatus::Failed => RunOutcome::ExtractFailed,
            ExtractStatus::Extracted => {
                if record == RecordAction::MissingBundlePath {
                    RunOutcome::MissingBundlePath
                } else if format == Some(Format::Json) && !serialised {
                    RunOutcome::SerialiseFailed
                } else {
                    RunOutcome::Done
                }
            },
        }
    }
}

/// A run exits 2 exactly when `--since` or `--format` is bad, the root holds
/// no transcripts, or recording is asked for without a bundle path (after a
/// successful extraction); it exits 0 exactly when every step succeeds, and 1
/// otherwise.
pub proof fn lemma_exit_codes(
    since_ok: bool,
    format: Option<Format>,
    extract: ExtractStatus,
    record: RecordAction,
    serialised: bool,
)
    ensures
        exit_code_of(run_outcome_of(since_ok, format, extract, record, serialised)) == 2 <==> (
        !since_ok || format is None || extract == ExtractStatus::NoJsonlFiles || (extract
            == ExtractStatus::Extracted && record == RecordAction::MissingBundlePath)),
        exit_code_of(run_outcome_of(since_ok, format, extract, record, serialised)) == 0 <==> (
        since_ok && format is Some && extract == ExtractStatus::Extracted && record
            != RecordAction::MissingBundlePath && (format == Some(Format::Json) ==> serialised)),
{
}

/// Whether tool-only assistant turns are kept: only with
/// `--include-tool-only`; `--exclude-tool-only` states the default and never
/// changes the outcome.
pub fn tool_only_included(include_tool_only: bool, exclude_tool_only: bool) -> (included: bool)
    ensures
        included == include_tool_only,
{
    let _ = exclude_tool_only;
    include_tool_only
}

} // verus!
