use conversations_zine::cadence_intake::{absorb_letter, letter_path};
use conversations_zine::moments::Moment;
use conversations_zine::options::{
    cadence_config, exit_code, parse_format, record_action, run_outcome, should_record,
    tool_only_included, ExtractStatus, Format, RecordAction, RunOutcome, CADENCE_TOP_K,
};
use conversations_zine::quarterly::{join_ids, quarterly_record_args};
use conversations_zine::{CadenceIntakeConfig, CadenceIntakeResult, CadenceRecord};

fn moment(text: &str) -> Moment {
    Moment {
        session_id: "s".to_string(),
        turn_index: 0,
        ts: String::new(),
        user_text: String::new(),
        assistant_text: text.to_string(),
        score_bits: 0,
        why: String::new(),
    }
}

#[test]
fn default_config_looks_back_92_days() {
    let cfg = CadenceIntakeConfig::default();
    assert_eq!(cfg.since, "92d");
    assert_eq!(cfg.top_k, 15);
}

#[test]
fn default_result_is_empty() {
    let r = CadenceIntakeResult::default();
    assert!(r.moments.is_empty());
    assert!(r.source_ids.is_empty());
    assert_eq!(r.skipped, 0);
}

#[test]
fn letter_path_needs_a_non_empty_path() {
    let rec = |p: Option<&str>| CadenceRecord {
        id: "id".to_string(),
        path: p.map(|s| s.to_string()),
        summary: None,
    };
    assert_eq!(letter_path(&rec(None)), None);
    assert_eq!(letter_path(&rec(Some(""))), None);
    assert_eq!(letter_path(&rec(Some("/tmp/l.md"))), Some("/tmp/l.md".to_string()));
}

#[test]
fn absorb_letter_collects_sources_and_skips() {
    let mut r = CadenceIntakeResult::default();
    absorb_letter(&mut r, "a".to_string(), Some(vec![moment("x"), moment("y")]));
    absorb_letter(&mut r, "b".to_string(), None);
    absorb_letter(&mut r, "c".to_string(), Some(vec![]));
    absorb_letter(&mut r, "d".to_string(), Some(vec![moment("z")]));
    assert_eq!(r.source_ids, vec!["a".to_string(), "c".to_string(), "d".to_string()]);
    let texts: Vec<&str> = r.moments.iter().map(|m| m.assistant_text.as_str()).collect();
    assert_eq!(texts, vec!["x", "y", "z"]);
    assert_eq!(r.skipped, 1);
    assert_eq!(r.source_ids.len() + r.skipped, 4);
}

#[test]
fn absorb_letter_skip_count_saturates() {
    let mut r = CadenceIntakeResult { moments: vec![], source_ids: vec![], skipped: usize::MAX };
    absorb_letter(&mut r, "a".to_string(), None);
    assert_eq!(r.skipped, usize::MAX);
}

#[test]
fn join_ids_uses_commas() {
    assert_eq!(join_ids(&vec![]), "");
    assert_eq!(join_ids(&vec!["a".to_string()]), "a");
    assert_eq!(join_ids(&vec!["a".to_string(), "b".to_string(), "c".to_string()]), "a,b,c");
}

#[test]
fn quarterly_args_without_sources() {
    let args = quarterly_record_args("/tmp/zine.md", 12, 5, 7, &vec![]);
    let expected: Vec<String> = [
        "record",
        "quarterly",
        "--produced-by",
        "zine",
        "--path",
        "/tmp/zine.md",
        "--summary",
        "zine output: 12 moments, 5 from monthly cadence, 7 from JSONL",
        "--meta",
        "moment_count=12",
        "--meta",
        "source_mix=5/7",
    ]
    .iter()
    .map(|s| s.to_string())
    .collect();
    assert_eq!(args, expected);
    assert_eq!(quarterly_record_args("p", 0, 0, 0, &vec![String::new()]).len(), 12);
}

#[test]
fn quarterly_args_with_sources() {
    let args = quarterly_record_args("b.md", 3, 2, 1, &vec!["id1".to_string(), "id2".to_string()]);
    assert_eq!(args.len(), 14);
    assert_eq!(args[12], "--sources");
    assert_eq!(args[13], "id1,id2");
    assert_eq!(args[7], "zine output: 3 moments, 2 from monthly cadence, 1 from JSONL");
}

#[test]
fn parse_format_accepts_json_and_text() {
    assert_eq!(parse_format("json"), Some(Format::Json));
    assert_eq!(parse_format("text"), Some(Format::Text));
    assert_eq!(parse_format("JSON"), None);
    assert_eq!(parse_format(""), None);
}

#[test]
fn cadence_config_only_when_monthly() {
    assert!(cadence_config(false, "92d").is_none());
    let cfg = cadence_config(true, "30d").unwrap();
    assert_eq!(cfg.since, "30d");
    assert_eq!(cfg.top_k, CADENCE_TOP_K);
    assert_eq!(CADENCE_TOP_K, 15);
}

#[test]
fn should_record_defaults_to_cadence_monthly() {
    assert!(should_record(None, true));
    assert!(!should_record(None, false));
    assert!(should_record(Some(true), false));
    assert!(!should_record(Some(false), true));
}

#[test]
fn exclude_tool_only_states_the_default() {
    assert!(!tool_only_included(false, false));
    assert!(!tool_only_included(false, true));
    assert!(tool_only_included(true, false));
    assert!(tool_only_included(true, true));
}

#[test]
fn record_action_needs_a_bundle_path() {
    assert_eq!(record_action(None, false, false), RecordAction::Skip);
    assert_eq!(record_action(None, true, true), RecordAction::Record);
    assert_eq!(record_action(None, true, false), RecordAction::MissingBundlePath);
    assert_eq!(record_action(Some(false), true, false), RecordAction::Skip);
    assert_eq!(record_action(Some(true), false, true), RecordAction::Record);
}

#[test]
fn exit_codes_of_run_outcomes() {
    assert_eq!(exit_code(RunOutcome::Done), 0);
    assert_eq!(exit_code(RunOutcome::BadSince), 2);
    assert_eq!(exit_code(RunOutcome::BadFormat), 2);
    assert_eq!(exit_code(RunOutcome::NoJsonlFiles), 2);
    assert_eq!(exit_code(RunOutcome::MissingBundlePath), 2);
    assert_eq!(exit_code(RunOutcome::ExtractFailed), 1);
    assert_eq!(exit_code(RunOutcome::SerialiseFailed), 1);
}

#[test]
fn run_outcome_follows_the_steps_in_order() {
    let json = Some(Format::Json);
    let text = Some(Format::Text);
    let ok = ExtractStatus::Extracted;
    let rec = RecordAction::Record;
    assert_eq!(run_outcome(false, None, ExtractStatus::Failed, rec, false), RunOutcome::BadSince);
    assert_eq!(run_outcome(true, None, ok, rec, true), RunOutcome::BadFormat);
    assert_eq!(run_outcome(true, json, ExtractStatus::NoJsonlFiles, rec, true), RunOutcome::NoJsonlFiles);
    assert_eq!(
        run_outcome(true, json, ExtractStatus::Failed, RecordAction::MissingBundlePath, true),
        RunOutcome::ExtractFailed
    );
    assert_eq!(run_outcome(true, text, ok, RecordAction::MissingBundlePath, true), RunOutcome::MissingBundlePath);
    assert_eq!(run_outcome(true, json, ok, RecordAction::Skip, false), RunOutcome::SerialiseFailed);
    assert_eq!(run_outcome(true, text, ok, RecordAction::Skip, false), RunOutcome::Done);
    assert_eq!(run_outcome(true, json, ok, rec, true), RunOutcome::Done);
    assert_eq!(exit_code(run_outcome(true, json, ok, RecordAction::MissingBundlePath, true)), 2);
}
