use conversations_zine::moments::moments_from_scored;
use conversations_zine::ranking::{ranked_positions, top_positions};
use conversations_zine::text::{decimal_string, is_whitespace, same_text, trim};
use conversations_zine::chunks::extract_chunks;

#[test]
fn decimal_string_renders_numbers() {
    assert_eq!(decimal_string(0), "0");
    assert_eq!(decimal_string(7), "7");
    assert_eq!(decimal_string(10), "10");
    assert_eq!(decimal_string(12345), "12345");
    assert_eq!(decimal_string(u64::MAX), u64::MAX.to_string());
}

#[test]
fn ranked_positions_is_a_stable_descending_sort() {
    assert_eq!(ranked_positions(&vec![5, 9, 5, 1]), vec![1, 0, 2, 3]);
    assert_eq!(ranked_positions(&vec![]), Vec::<usize>::new());
    assert_eq!(ranked_positions(&vec![2, 2, 2]), vec![0, 1, 2]);
    assert_eq!(ranked_positions(&vec![1, 2, 3, 4]), vec![3, 2, 1, 0]);
}

#[test]
fn top_positions_cuts_to_k() {
    assert_eq!(top_positions(&vec![5, 9, 5, 1], 3), vec![1, 0, 2]);
    assert_eq!(top_positions(&vec![5, 9, 5, 1], 10), vec![1, 0, 2, 3]);
    assert_eq!(top_positions(&vec![5, 9, 5, 1], 0), Vec::<usize>::new());
}

#[test]
fn moments_from_scored_ranks_and_tags() {
    let scored = vec![
        (5u64, "a".to_string(), 0u32),
        (9u64, "b".to_string(), 2u32),
        (5u64, "c".to_string(), 1u32),
    ];
    let moments = moments_from_scored("r1", &scored, 2);
    assert_eq!(moments.len(), 2);
    assert_eq!(moments[0].session_id, "cadence-monthly:r1");
    assert_eq!(moments[0].turn_index, 1);
    assert_eq!(moments[0].ts, "");
    assert_eq!(moments[0].user_text, "");
    assert_eq!(moments[0].assistant_text, "b");
    assert_eq!(moments[0].score_bits, 9);
    assert_eq!(moments[0].why, "source=cadence-monthly emphasis=2 chunk-idx=1");
    assert_eq!(moments[1].turn_index, 0);
    assert_eq!(moments[1].assistant_text, "a");
    assert_eq!(moments[1].why, "source=cadence-monthly emphasis=0 chunk-idx=0");
}

#[test]
fn moments_from_scored_respects_top_k() {
    let scored: Vec<(u64, String, u32)> =
        (0..20u64).map(|i| (i % 7, format!("chunk {i}"), 0)).collect();
    let moments = moments_from_scored("ulid-test-0001", &scored, 5);
    assert_eq!(moments.len(), 5);
    for w in moments.windows(2) {
        assert!(w[0].score_bits >= w[1].score_bits);
    }
    let idx: Vec<usize> = moments.iter().map(|m| m.turn_index).collect();
    assert_eq!(idx, vec![6, 13, 5, 12, 19]);
    assert!(moments_from_scored("x", &Vec::new(), 5).is_empty());
}

#[test]
fn moments_from_fixture_letter_with_float_scores() {
    let letter = "# Title\n\nA **bold** paragraph that is long enough to matter.\n\nShort.\n";
    let chunks = extract_chunks(letter);
    let scored: Vec<(u64, String, u32)> = chunks
        .into_iter()
        .enumerate()
        .map(|(i, (t, e))| (((e as f64) + 1.0 / (1.0 + i as f64)).to_bits(), t, e))
        .collect();
    let moments = moments_from_scored("ulid-test-0001", &scored, 5);
    assert_eq!(moments.len(), 3);
    assert_eq!(moments[0].assistant_text, "A bold paragraph that is long enough to matter.");
    for m in &moments {
        assert!(m.session_id.starts_with("cadence-monthly:"));
        assert!(m.why.contains("source=cadence-monthly"));
    }
}

#[test]
fn trim_removes_unicode_whitespace() {
    assert_eq!(trim("  a b \n"), "a b");
    assert_eq!(trim("\u{3000}x\u{85}"), "x");
    assert_eq!(trim(" \t "), "");
    assert_eq!(trim(""), "");
    assert_eq!(trim("\u{200b}x"), "\u{200b}x");
    for c in ['\t', '\n', ' ', '\u{a0}', '\u{2000}', '\u{200a}', '\u{3000}', 'a', '\u{200b}'] {
        assert_eq!(is_whitespace(c), c.is_whitespace());
    }
}

#[test]
fn same_text_compares_characters() {
    assert!(same_text("json", "json"));
    assert!(!same_text("json", "jsonx"));
    assert!(!same_text("json", "JSON"));
    assert!(same_text("", ""));
}
