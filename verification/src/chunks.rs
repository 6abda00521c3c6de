//! Splitting a Markdown letter into paragraph-level chunks, each with the
//! number of emphasis spans it holds.

use vstd::prelude::*;

use crate::markdown::{markdown_events, markdown_events_of, MdEvent};
use crate::text::{is_trimmed, lemma_trim_ws, push_char, trim, trim_ws};

verus! {

/// The most characters a chunk may hold.
pub const CHUNK_LIMIT: usize = 300;

/// The state of a scan over Markdown events: the chunks emitted so far, the
/// text of the block being read, the number of emphasis spans whose text has
/// entered it, and the number of open spans (the innermost ones) none of
/// whose text has entered it yet.
pub struct ChunkScan {
    pub chunks: Seq<(Seq<char>, u32)>,
    pub current: Seq<char>,
    pub emphasis: u32,
    pub pending: u32,
}

/// The scan before any event.
pub open spec fn scan_start() -> ChunkScan {
    ChunkScan { chunks: seq![], current: seq![], emphasis: 0, pending: 0 }
}

/// `x + 1`, saturating at `u32::MAX`.
pub open spec fn saturating_inc(x: u32) -> u32 {
    if x < u32::MAX {
        (x + 1) as u32
    } else {
        x
    }
}

/// `x + y`, saturating at `u32::MAX`.
pub open spec fn saturating_sum(x: u32, y: u32) -> u32 {
    if x + y <= u32::MAX {
        (x + y) as u32
    } else {
        u32::MAX
    }
}

/// The events that begin a leaf block: paragraph, heading or block quote.
pub open spec fn is_block_start(e: MdEvent) -> bool {
    e is ParagraphStart || e is HeadingStart || e is BlockQuoteStart
}

/// The events that end a leaf block: paragraph, heading or block quote.
pub open spec fn is_block_end(e: MdEvent) -> bool {
    e is ParagraphEnd || e is HeadingEnd || e is BlockQuoteEnd
}

/// The events that begin an emphasis span: italic or bold.
pub open spec fn is_emphasis_start(e: MdEvent) -> bool {
    e is EmphasisStart || e is StrongStart
}

/// The events that end an emphasis span: italic or bold.
pub open spec fn is_emphasis_end(e: MdEvent) -> bool {
    e is EmphasisEnd || e is StrongEnd
}

/// Whether a trimmed block becomes a chunk: it is non-empty and fits the limit.
pub open spec fn keeps_chunk(text: Seq<char>) -> bool {
    text.len() > 0 && text.len() <= CHUNK_LIMIT
}

/// The scan after one more event.
pub open spec fn scan_step(s: ChunkScan, e: MdEvent) -> ChunkScan {
    if is_block_start(e) {
        ChunkScan { chunks: s.chunks, current: seq![], emphasis: 0, pending: 0 }
    } else if is_block_end(e) {
        let t = trim_ws(s.current);
        ChunkScan {
            chunks: if keeps_chunk(t) { s.chunks.push((t, s.emphasis)) } else { s.chunks },
            current: seq![],
            emphasis: 0,
            pending: 0,
        }
    } else if is_emphasis_start(e) {
        ChunkScan { pending: saturating_inc(s.pending), ..s }
    } else if is_emphasis_end(e) {
        // the innermost span ends; if it is still pending, none of its text entered
        ChunkScan { pending: if s.pending > 0 { (s.pending - 1) as u32 } else { 0 }, ..s }
    } else {
        match e {
            MdEvent::Text(t) => if s.current.len() + t@.len() <= CHUNK_LIMIT {
                ChunkScan {
                    current: s.current + t@,
                    emphasis: saturating_sum(s.emphasis, s.pending),
                    pending: 0,
                    ..s
                }
            } else {
                s
            },
            MdEvent::Code(t) => if s.current.len() + t@.len() + 2 <= CHUNK_LIMIT {
                ChunkScan { current: s.current.push('`') + t@.push('`'), ..s }
            } else {
                s
            },
            MdEvent::SoftBreak | MdEvent::HardBreak => if s.current.len() > 0 && s.current.last()
                != ' ' {
                ChunkScan { current: s.current.push(' '), ..s }
            } else {
                s
            },
            _ => s,
        }
    }
}

/// The scan after all of `events`, in order.
pub open spec fn scan_events(events: Seq<MdEvent>) -> ChunkScan
    decreases events.len(),
{
    if events.len() == 0 {
        scan_start()
    } else {
        scan_step(scan_events(events.drop_last()), events.last())
    }
}

/// The chunks that a sequence of events yields.
pub open spec fn chunks_of_events(events: Seq<MdEvent>) -> Seq<(Seq<char>, u32)> {
    scan_events(events).chunks
}

/// A vector of chunks, each text taken by its characters.
pub open spec fn chunk_views(chunks: Seq<(String, u32)>) -> Seq<(Seq<char>, u32)> {
    chunks.map_values(|c: (String, u32)| (c.0@, c.1))
}

/// Collects the chunks of a stream of Markdown events: the text of each
/// paragraph, heading or block quote, trimmed, with the number of emphasis
/// spans (italic or bold) some text of which entered it. Text and inline code (in backticks)
/// are added while the block stays within [`CHUNK_LIMIT`] characters; a line
/// break adds one space. A block whose trimmed text is empty or over
/// [`CHUNK_LIMIT`] characters is dropped.
pub fn chunks_from_events(events: &Vec<MdEvent>) -> (chunks: Vec<(String, u32)>)
    ensures
        chunk_views(chunks@) == chunks_of_events(events@),
{
    let mut chunks: Vec<(String, u32)> = Vec::new();
    let mut current = String::new();
    let mut emph: u32 = 0;
    let mut pending: u32 = 0;
    let mut i: usize = 0;
    assert(chunk_views(chunks@) =~= Seq::<(Seq<char>, u32)>::empty());
    assert(events@.take(0) =~= Seq::<MdEvent>::empty());
    while i < events.len()
        invariant
            i <= events.len(),
            scan_events(events@.take(i as int)) == (ChunkScan {
                chunks: chunk_views(chunks@),
                current: current@,
                emphasis: emph,
                pending,
            }),
        decreases events.len() - i,
    {
        let ghost before = chunks@;
        match &events[i] {
            MdEvent::ParagraphStart | MdEvent::HeadingStart | MdEvent::BlockQuoteStart => {
                current = String::new();
                emph = 0;
                pending = 0;
            },
            MdEvent::ParagraphEnd | MdEvent::HeadingEnd | MdEvent::BlockQuoteEnd => {
                let t = trim(current.as_str());
                if !t.is_empty() && t.unicode_len() <= CHUNK_LIMIT {
                    chunks.push((String::from_str(t), emph));
                    assert(chunk_views(chunks@) == chunk_views(before).push((t@, emph)));
                }
                current = String::new();
                emph = 0;
                pending = 0;
            },
            MdEvent::EmphasisStart | MdEvent::StrongStart => {
                pending = pending.saturating_add(1);
            },
            MdEvent::EmphasisEnd | MdEvent::StrongEnd => {
                if pending > 0 {
                    pending = pending - 1;
                }
            },
            MdEvent::Text(t) => {
                let cur_len = current.as_str().unicode_len();
                let t_len = t.as_str().unicode_len();
                if cur_len <= CHUNK_LIMIT && t_len <= CHUNK_LIMIT - cur_len {
                    current.append(t.as_str());
                    emph = emph.saturating_add(pending);
                    pending = 0;
                }
            },
            MdEvent::Code(t) => {
                let cur_len = current.as_str().unicode_len();
                let t_len = t.as_str().unicode_len();
                if cur_len <= CHUNK_LIMIT && t_len <= CHUNK_LIMIT - cur_len && 2 <= CHUNK_LIMIT
                    - cur_len - t_len {
                    push_char(&mut current, '`');
                    current.append(t.as_str());
                    push_char(&mut current, '`');
                }
            },
            MdEvent::SoftBreak | MdEvent::HardBreak => {
                let n = current.as_str().unicode_len();
                if n > 0 && current.as_str().get_char(n - 1) != ' ' {
                    push_char(&mut current, ' ');
                }
            },
            MdEvent::Other => {},
        }
        assert(events@.take(i + 1).drop_last() == events@.take(i as int));
        i += 1;
    }
    assert(events@.take(events.len() as int) == events@);
    chunks
}

/// Walks the Markdown AST of `markdown` and collects `(text, emphasis_count)`
/// for each paragraph, heading and block quote, capped at [`CHUNK_LIMIT`]
/// characters; see [`chunks_from_events`].
pub fn extract_chunks(markdown: &str) -> (chunks: Vec<(String, u32)>)
    ensures
        chunk_views(chunks@) == chunks_of_events(markdown_events_of(markdown@)),
{
    let events = markdown_events(markdown);
    chunks_from_events(&events)
}

} // verus!

verus! {

/// What every chunk satisfies: its text is non-empty, at most
/// [`CHUNK_LIMIT`] characters, and has no leading or trailing whitespace.
pub open spec fn chunk_well_formed(text: Seq<char>) -> bool {
    &&& text.len() > 0
    &&& text.len() <= CHUNK_LIMIT
    &&& is_trimmed(text)
}

/// Every chunk of every event stream is non-empty, at most [`CHUNK_LIMIT`]
/// characters long, and trimmed (trimming it again changes nothing).
pub proof fn lemma_chunks_well_formed(events: Seq<MdEvent>)
    ensures
        forall|i: int|
            0 <= i < chunks_of_events(events).len() ==> {
                &&& chunk_well_formed(#[trigger] chunks_of_events(events)[i].0)
                &&& trim_ws(chunks_of_events(events)[i].0) == chunks_of_events(events)[i].0
            },
    decreases events.len(),
{
    if events.len() > 0 {
        lemma_chunks_well_formed(events.drop_last());
        let s = scan_events(events.drop_last());
        lemma_trim_ws(s.current);
        let t = trim_ws(s.current);
        lemma_trim_ws(t);
        let c = chunks_of_events(events);
        assert(c == s.chunks || c == s.chunks.push((t, s.emphasis)) && keeps_chunk(t));
        assert forall|i: int| 0 <= i < c.len() implies {
            &&& chunk_well_formed(#[trigger] c[i].0)
            &&& trim_ws(c[i].0) == c[i].0
        } by {
            if i < s.chunks.len() {
                assert(c[i] == s.chunks[i]);
                assert(chunk_well_formed(chunks_of_events(events.drop_last())[i].0));
            } else {
                assert(c[i] == (t, s.emphasis));
            }
        }
    }
}

/// The event with a hard line break read as a soft one.
pub open spec fn as_soft_break(e: MdEvent) -> MdEvent {
    match e {
        MdEvent::HardBreak => MdEvent::SoftBreak,
        _ => e,
    }
}

/// The events with every hard line break read as a soft one.
pub open spec fn hard_breaks_softened(events: Seq<MdEvent>) -> Seq<MdEvent> {
    events.map_values(|e: MdEvent| as_soft_break(e))
}

/// A hard line break is read like a soft one: replacing every hard break of
/// an event stream by a soft break changes none of its chunks.
pub proof fn lemma_hard_break_reads_as_soft_break(events: Seq<MdEvent>)
    ensures
        scan_events(hard_breaks_softened(events)) == scan_events(events),
        chunks_of_events(hard_breaks_softened(events)) == chunks_of_events(events),
    decreases events.len(),
{
    if events.len() > 0 {
        lemma_hard_break_reads_as_soft_break(events.drop_last());
        let soft = hard_breaks_softened(events);
        assert(soft.drop_last() =~= hard_breaks_softened(events.drop_last()));
        assert(soft.last() == as_soft_break(events.last()));
    }
}

/// Two lines joined by a hard line break make one chunk, with one space
/// between them: for a non-empty first line `a` that does not end in a space,
/// and lines that fit the limit together.
pub proof fn lemma_hard_break_joins_lines(a: String, b: String)
    requires
        a@.len() > 0,
        a@.last() != ' ',
        a@.len() + 1 + b@.len() <= CHUNK_LIMIT,
        trim_ws(a@.push(' ') + b@).len() > 0,
    ensures
        chunks_of_events(
            seq![
                MdEvent::ParagraphStart,
                MdEvent::Text(a),
                MdEvent::HardBreak,
                MdEvent::Text(b),
                MdEvent::ParagraphEnd,
            ],
        ) == seq![(trim_ws(a@.push(' ') + b@), 0u32)],
{
    let e0 = Seq::<MdEvent>::empty();
    let e1 = e0.push(MdEvent::ParagraphStart);
    let e2 = e1.push(MdEvent::Text(a));
    let e3 = e2.push(MdEvent::HardBreak);
    let e4 = e3.push(MdEvent::Text(b));
    let e5 = e4.push(MdEvent::ParagraphEnd);
    assert(e5 =~= seq![
        MdEvent::ParagraphStart,
        MdEvent::Text(a),
        MdEvent::HardBreak,
        MdEvent::Text(b),
        MdEvent::ParagraphEnd,
    ]);
    assert(e1.drop_last() =~= e0);
    assert(e2.drop_last() =~= e1);
    assert(e3.drop_last() =~= e2);
    assert(e4.drop_last() =~= e3);
    assert(e5.drop_last() =~= e4);
    assert(scan_events(e0) == scan_start());
    assert(scan_events(e1) == ChunkScan { chunks: seq![], current: seq![], emphasis: 0, pending: 0 });
    assert(Seq::<char>::empty() + a@ =~= a@);
    assert(scan_events(e2).current == a@);
    assert(scan_events(e3).current == a@.push(' '));
    assert(scan_events(e4) == ChunkScan {
        chunks: seq![],
        current: a@.push(' ') + b@,
        emphasis: 0,
        pending: 0,
    });
    lemma_trim_ws(a@.push(' ') + b@);
}

/// A scan state with `before` placed ahead of its chunks.
pub open spec fn after_chunks(s: ChunkScan, before: Seq<(Seq<char>, u32)>) -> ChunkScan {
    ChunkScan { chunks: before + s.chunks, ..s }
}

proof fn lemma_scan_step_after_chunks(s: ChunkScan, before: Seq<(Seq<char>, u32)>, e: MdEvent)
    ensures
        scan_step(after_chunks(s, before), e) == after_chunks(scan_step(s, e), before),
{
    if is_block_end(e) {
        let t = trim_ws(s.current);
        assert((before + s.chunks).push((t, s.emphasis)) =~= before + s.chunks.push((t, s.emphasis)));
    }
}

proof fn lemma_scan_from_block_start(before: Seq<MdEvent>, b: MdEvent, rest: Seq<MdEvent>)
    requires
        is_block_start(b),
    ensures
        scan_events(before + seq![b] + rest) == after_chunks(
            scan_events(seq![b] + rest),
            chunks_of_events(before),
        ),
    decreases rest.len(),
{
    if rest.len() == 0 {
        let whole = before + seq![b] + rest;
        let alone = seq![b] + rest;
        assert(whole.drop_last() =~= before);
        assert(whole.last() == b);
        assert(alone.drop_last() =~= Seq::<MdEvent>::empty());
        assert(alone.last() == b);
        let c = chunks_of_events(before);
        assert(scan_events(whole) == ChunkScan { chunks: c, current: seq![], emphasis: 0, pending: 0 });
        assert(scan_events(alone.drop_last()) == scan_start());
        assert(scan_events(alone) == ChunkScan {
            chunks: seq![],
            current: seq![],
            emphasis: 0,
            pending: 0,
        });
        assert(c + Seq::<(Seq<char>, u32)>::empty() =~= c);
    } else {
        lemma_scan_from_block_start(before, b, rest.drop_last());
        assert((before + seq![b] + rest).drop_last() =~= before + seq![b] + rest.drop_last());
        assert((seq![b] + rest).drop_last() =~= seq![b] + rest.drop_last());
        assert((before + seq![b] + rest).last() == rest.last());
        assert((seq![b] + rest).last() == rest.last());
        lemma_scan_step_after_chunks(
            scan_events(seq![b] + rest.drop_last()),
            chunks_of_events(before),
            rest.last(),
        );
    }
}

/// Every block start (paragraph, heading or block quote) empties the text
/// being read: the chunks of a stream are those of the events before the
/// block start, then those of the stream that begins at it, so no text read
/// before a block start reaches a later chunk.
pub proof fn lemma_block_start_clears(before: Seq<MdEvent>, b: MdEvent, rest: Seq<MdEvent>)
    requires
        is_block_start(b),
    ensures
        chunks_of_events(before + seq![b] + rest) == chunks_of_events(before) + chunks_of_events(
            seq![b] + rest,
        ),
{
    lemma_scan_from_block_start(before, b, rest);
}

} // verus!
