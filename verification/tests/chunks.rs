use conversations_zine::chunks::{chunks_from_events, extract_chunks};
use conversations_zine::markdown::MdEvent;

const FIXTURE_LETTER: &str = r#"# Monthly Letter — 2026-04

## Highlights

This was a **productive** month. The team shipped three major features.

The _cadence_ substrate is now live and records are flowing.

## Challenges

Some integration tests were flaky; fixed with a timeout tweak.

## Quote of the month

> The best code is code you don't have to write.
"#;

#[test]
fn extract_chunks_finds_paragraphs() {
    let chunks = extract_chunks(FIXTURE_LETTER);
    assert!(!chunks.is_empty(), "should extract at least one chunk");
    // The 'Highlights' heading should appear.
    let texts: Vec<&str> = chunks.iter().map(|(t, _)| t.as_str()).collect();
    assert!(
        texts.iter().any(|t| t.contains("productive")),
        "should find the productive paragraph; got: {texts:?}"
    );
}

#[test]
fn extract_chunks_emphasis_counted() {
    let chunks = extract_chunks(FIXTURE_LETTER);
    // The paragraph with **productive** should have emphasis > 0.
    let prod = chunks.iter().find(|(t, _)| t.contains("productive"));
    assert!(prod.is_some(), "productive paragraph not found");
    let (_, emph) = prod.unwrap();
    assert!(*emph > 0, "expected emphasis count > 0 for bold text");
}

#[test]
fn extract_chunks_whole_fixture() {
    let chunks = extract_chunks(FIXTURE_LETTER);
    let expected: Vec<(String, u32)> = vec![
        ("Monthly Letter — 2026-04".to_string(), 0),
        ("Highlights".to_string(), 0),
        ("This was a productive month. The team shipped three major features.".to_string(), 1),
        ("The cadence substrate is now live and records are flowing.".to_string(), 1),
        ("Challenges".to_string(), 0),
        ("Some integration tests were flaky; fixed with a timeout tweak.".to_string(), 0),
        ("Quote of the month".to_string(), 0),
        ("The best code is code you don't have to write.".to_string(), 0),
    ];
    assert_eq!(chunks, expected);
}

#[test]
fn extract_chunks_joins_lines_and_code() {
    let chunks = extract_chunks("first line\nsecond `x` line\n\n*a* and **b**\n");
    assert_eq!(
        chunks,
        vec![
            ("first line second `x` line".to_string(), 0),
            ("a and b".to_string(), 2),
        ]
    );
}

#[test]
fn extract_chunks_of_empty_text() {
    assert!(extract_chunks("").is_empty());
    assert!(extract_chunks("---\n").is_empty());
}

#[test]
fn extract_chunks_caps_by_characters() {
    let letter = "é".repeat(200);
    assert_eq!(extract_chunks(&letter), vec![("é".repeat(200), 0)]);
    assert_eq!(extract_chunks(&"a".repeat(301)), vec![]);
    assert_eq!(extract_chunks(&"a".repeat(300)), vec![("a".repeat(300), 0)]);
}

#[test]
fn extract_chunks_counts_emphasis_spans() {
    assert_eq!(
        extract_chunks("**fast `cargo` build**"),
        vec![("fast `cargo` build".to_string(), 1)]
    );
    assert_eq!(
        extract_chunks("*one* and __two__ and ***three***"),
        vec![("one and two and three".to_string(), 4)]
    );
}

#[test]
fn extract_chunks_counts_only_spans_whose_text_enters() {
    let letter = format!("{}**bb**", "a".repeat(300));
    assert_eq!(extract_chunks(&letter), vec![("a".repeat(300), 0)]);
    let events = vec![
        MdEvent::ParagraphStart,
        MdEvent::StrongStart,
        MdEvent::Code("x".to_string()),
        MdEvent::StrongEnd,
        MdEvent::EmphasisStart,
        MdEvent::StrongStart,
        MdEvent::StrongEnd,
        MdEvent::Text("t".to_string()),
        MdEvent::EmphasisEnd,
        MdEvent::ParagraphEnd,
    ];
    assert_eq!(chunks_from_events(&events), vec![("`x`t".to_string(), 1)]);
}

#[test]
fn extract_chunks_ignores_list_items_without_paragraphs() {
    // A tight list item is not a paragraph, heading or block quote: its text
    // joins no chunk of its own.
    assert_eq!(extract_chunks("- item
"), vec![]);
    assert_eq!(extract_chunks("> quoted
"), vec![("quoted".to_string(), 0)]);
}

#[test]
fn chunks_from_events_trims_and_counts_emphasis() {
    let events = vec![
        MdEvent::ParagraphStart,
        MdEvent::Text("  hi ".to_string()),
        MdEvent::SoftBreak,
        MdEvent::EmphasisStart,
        MdEvent::Text("x".to_string()),
        MdEvent::Text("z".to_string()),
        MdEvent::EmphasisEnd,
        MdEvent::StrongStart,
        MdEvent::Text("y".to_string()),
        MdEvent::StrongEnd,
        MdEvent::ParagraphEnd,
    ];
    assert_eq!(chunks_from_events(&events), vec![("hi xzy".to_string(), 2)]);
}

#[test]
fn chunks_from_events_break_adds_one_space() {
    let events = vec![
        MdEvent::HeadingStart,
        MdEvent::SoftBreak,
        MdEvent::Text("a".to_string()),
        MdEvent::HardBreak,
        MdEvent::SoftBreak,
        MdEvent::Code("c".to_string()),
        MdEvent::Other,
        MdEvent::HeadingEnd,
    ];
    assert_eq!(chunks_from_events(&events), vec![("a `c`".to_string(), 0)]);
}

#[test]
fn chunks_from_events_trims_unicode_whitespace() {
    let events = vec![
        MdEvent::BlockQuoteStart,
        MdEvent::Text("\u{3000}\tx y\u{a0}\u{2028}".to_string()),
        MdEvent::BlockQuoteEnd,
    ];
    assert_eq!(chunks_from_events(&events), vec![("x y".to_string(), 0)]);
}

#[test]
fn chunks_from_events_drops_empty_blocks() {
    let events = vec![
        MdEvent::ParagraphStart,
        MdEvent::Text("   ".to_string()),
        MdEvent::ParagraphEnd,
        MdEvent::BlockQuoteEnd,
        MdEvent::Text("outside".to_string()),
    ];
    assert!(chunks_from_events(&events).is_empty());
}

#[test]
fn chunks_from_events_caps_at_300_characters() {
    let long = "a".repeat(300);
    let events = vec![
        MdEvent::ParagraphStart,
        MdEvent::Text(long.clone()),
        MdEvent::Text("b".to_string()),
        MdEvent::SoftBreak,
        MdEvent::Text("c".to_string()),
        MdEvent::ParagraphEnd,
        MdEvent::ParagraphStart,
        MdEvent::Text("x".repeat(301)),
        MdEvent::Text("short".to_string()),
        MdEvent::ParagraphEnd,
        MdEvent::ParagraphStart,
        MdEvent::Text("é".repeat(300)),
        MdEvent::Text("z".to_string()),
        MdEvent::ParagraphEnd,
        MdEvent::ParagraphStart,
        MdEvent::Text("a".repeat(298)),
        MdEvent::Code("xy".to_string()),
        MdEvent::Code("".to_string()),
        MdEvent::ParagraphEnd,
    ];
    assert_eq!(
        chunks_from_events(&events),
        vec![
            (long, 0),
            ("short".to_string(), 0),
            ("é".repeat(300), 0),
            (format!("{}``", "a".repeat(298)), 0),
        ]
    );
}

#[test]
fn chunks_from_events_block_start_resets() {
    let events = vec![
        MdEvent::ParagraphStart,
        MdEvent::EmphasisStart,
        MdEvent::Text("lost".to_string()),
        MdEvent::BlockQuoteStart,
        MdEvent::ParagraphStart,
        MdEvent::Text("kept".to_string()),
        MdEvent::ParagraphEnd,
        MdEvent::BlockQuoteEnd,
    ];
    assert_eq!(chunks_from_events(&events), vec![("kept".to_string(), 0)]);
}
