//! Markdown events as the renderer reads them, and the tokenizer that produces
//! them from text.
use pulldown_cmark::{
    BlockQuoteKind, Event, HeadingLevel, MetadataBlockKind, Options, Parser, TagEnd,
};
use vstd::prelude::*;

verus! {

#[verifier::external_type_specification]
pub struct ExHeadingLevel(HeadingLevel);

#[verifier::external_type_specification]
pub struct ExBlockQuoteKind(BlockQuoteKind);

#[verifier::external_type_specification]
pub struct ExMetadataBlockKind(MetadataBlockKind);

#[verifier::external_type_specification]
pub struct ExTagEnd(TagEnd);

/// One tokenizer event. A start event carries the tag that its end event will carry.
#[derive(Debug, PartialEq, Eq)]
pub enum MdEvent {
    Start(TagEnd),
    End(TagEnd),
    Text(String),
    /// An inline code span.
    Code(String),
    /// A block of raw HTML.
    Html(String),
    SoftBreak,
    HardBreak,
    /// A thematic break.
    Rule,
    /// Any event that the renderer passes over.
    Other,
}

/// The mathematical value of an `MdEvent`.
pub enum EventView {
    Start(TagEnd),
    End(TagEnd),
    Text(Seq<char>),
    Code(Seq<char>),
    Html(Seq<char>),
    SoftBreak,
    HardBreak,
    Rule,
    Other,
}

impl View for MdEvent {
    type V = EventView;

    open spec fn view(&self) -> EventView {
        match self {
            MdEvent::Start(t) => EventView::Start(*t),
            MdEvent::End(t) => EventView::End(*t),
            MdEvent::Text(s) => EventView::Text(s@),
            MdEvent::Code(s) => EventView::Code(s@),
            MdEvent::Html(s) => EventView::Html(s@),
            MdEvent::SoftBreak => EventView::SoftBreak,
            MdEvent::HardBreak => EventView::HardBreak,
            MdEvent::Rule => EventView::Rule,
            MdEvent::Other => EventView::Other,
        }
    }
}

pub open spec fn event_views(evs: Seq<MdEvent>) -> Seq<EventView> {
    evs.map_values(|e: MdEvent| e@)
}

/// The events that the Markdown tokenizer yields for a text, with strikethrough,
/// tables, footnotes, task lists and smart punctuation enabled.
pub uninterp spec fn markdown_events(text: Seq<char>) -> Seq<EventView>;

/// Relies on `pulldown_cmark::Parser::new_ext` with the options above: its
/// events depend on the text alone. A start tag is handed on as the end tag
/// that `Tag::to_end` gives for it; events the renderer passes over become `Other`.
#[verifier::external_body]
pub fn tokenize(text: &str) -> (r: Vec<MdEvent>)
    ensures
        event_views(r@) == markdown_events(text@),
{
    let options = Options::ENABLE_STRIKETHROUGH | Options::ENABLE_TABLES
        | Options::ENABLE_FOOTNOTES | Options::ENABLE_TASKLISTS | Options::ENABLE_SMART_PUNCTUATION;
    Parser::new_ext(text, options).map(|e| match e {
        Event::Start(t) => MdEvent::Start(t.to_end()),
        Event::End(t) => MdEvent::End(t),
        Event::Text(s) => MdEvent::Text(s.into_string()),
        Event::Code(s) => MdEvent::Code(s.into_string()),
        Event::Html(s) => MdEvent::Html(s.into_string()),
        Event::SoftBreak => MdEvent::SoftBreak,
        Event::HardBreak => MdEvent::HardBreak,
        Event::Rule => MdEvent::Rule,
        _ => MdEvent::Other,
    }).collect()
}

} // verus!
