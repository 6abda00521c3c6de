//! The Markdown events that chunk extraction reads, as produced by
//! `pulldown_cmark`.

use vstd::prelude::*;
use pulldown_cmark::Event::{Code, End, HardBreak, SoftBreak, Start, Text};
use pulldown_cmark::Tag::{BlockQuote, Emphasis, Heading, Paragraph, Strong};
use pulldown_cmark::{Parser, TagEnd};

verus! {

/// One Markdown parser event: one variant per `pulldown_cmark` event that
/// chunk extraction reads, and [`MdEvent::Other`] for all the rest.
#[derive(Debug)]
pub enum MdEvent {
    /// `Event::Start(Tag::Paragraph)`.
    ParagraphStart,
    /// `Event::End(TagEnd::Paragraph)`.
    ParagraphEnd,
    /// `Event::Start(Tag::Heading { .. })`.
    HeadingStart,
    /// `Event::End(TagEnd::Heading(_))`.
    HeadingEnd,
    /// `Event::Start(Tag::BlockQuote(_))`.
    BlockQuoteStart,
    /// `Event::End(TagEnd::BlockQuote(_))`.
    BlockQuoteEnd,
    /// `Event::Start(Tag::Emphasis)`.
    EmphasisStart,
    /// `Event::End(TagEnd::Emphasis)`.
    EmphasisEnd,
    /// `Event::Start(Tag::Strong)`.
    StrongStart,
    /// `Event::End(TagEnd::Strong)`.
    StrongEnd,
    /// `Event::Text`, with its text.
    Text(String),
    /// `Event::Code`, with its content (without the backticks).
    Code(String),
    /// `Event::SoftBreak`.
    SoftBreak,
    /// `Event::HardBreak`.
    HardBreak,
    /// Any other event.
    Other,
}

/// The events that `pulldown_cmark` produces for a Markdown text.
pub uninterp spec fn markdown_events_of(markdown: Seq<char>) -> Seq<MdEvent>;

/// Parses `markdown` with `pulldown_cmark::Parser::new` (no options) and
/// converts each event to the [`MdEvent`] variant of the same name. Trusted:
/// the result is whatever the parser yields for the text; what it yields is
/// not stated beyond being a function of the text.
#[verifier::external_body]
pub(crate) fn markdown_events(markdown: &str) -> (events: Vec<MdEvent>)
    ensures
        events@ == markdown_events_of(markdown@),
{
    let mut events = Vec::new();
    for event in Parser::new(markdown) {
        events.push(match event {
            Start(Paragraph) => MdEvent::ParagraphStart, End(TagEnd::Paragraph) => MdEvent::ParagraphEnd,
            Start(Heading { .. }) => MdEvent::HeadingStart, End(TagEnd::Heading(_)) => MdEvent::HeadingEnd,
            Start(BlockQuote(_)) => MdEvent::BlockQuoteStart, End(TagEnd::BlockQuote(_)) => MdEvent::BlockQuoteEnd,
            Start(Emphasis) => MdEvent::EmphasisStart, End(TagEnd::Emphasis) => MdEvent::EmphasisEnd,
            Start(Strong) => MdEvent::StrongStart, End(TagEnd::Strong) => MdEvent::StrongEnd,
            Text(t) => MdEvent::Text(t.to_string()), Code(t) => MdEvent::Code(t.to_string()),
            SoftBreak => MdEvent::SoftBreak, HardBreak => MdEvent::HardBreak, _ => MdEvent::Other,
        });
    }
    events
}

} // verus!
