use vstd::prelude::*;
use pulldown_cmark::{
    Alignment, CodeBlockKind, CowStr, Event, HeadingLevel, LinkType, Options, Parser, Tag,
};

verus! {

#[verifier::external_type_specification]
#[verifier::external_body]
pub struct ExCowStr<'a>(CowStr<'a>);

#[verifier::external_type_specification]
pub struct ExAlignment(Alignment);

#[verifier::external_type_specification]
pub struct ExHeadingLevel(HeadingLevel);

#[verifier::external_type_specification]
pub struct ExLinkType(LinkType);

#[verifier::external_type_specification]
pub struct ExCodeBlockKind<'a>(CodeBlockKind<'a>);

#[verifier::external_type_specification]
pub struct ExTag<'a>(Tag<'a>);

#[verifier::external_type_specification]
pub struct ExEvent<'a>(Event<'a>);

/// Heading depth, from `#` to `######`.
#[derive(Clone, Copy, Debug, PartialEq, Eq, Structural)]
pub enum Level {
    H1,
    H2,
    H3,
    H4,
    H5,
    H6,
}

/// How a link was written: inline with a destination, bare (`<...>` autolinks
/// and e-mail addresses), or through a reference definition.
#[derive(Clone, Copy, Debug, PartialEq, Eq, Structural)]
pub enum LinkKind {
    Inline,
    Bare,
    Reference,
}

/// A structural region of a Markdown document.
#[derive(Clone, Debug, PartialEq, Eq)]
pub enum MdTag {
    Paragraph,
    Heading(Level),
    BlockQuote,
    CodeBlock,
    /// `true` for an ordered list.
    List(bool),
    Item,
    FootnoteDefinition,
    /// The number of columns, one per alignment entry.
    Table(usize),
    TableHead,
    TableRow,
    TableCell,
    Emphasis,
    Strong,
    Strikethrough,
    /// Kind, destination and title.
    Link(LinkKind, String, String),
    /// Destination and title.
    Image(String, String),
}

/// One step of the structural event stream that the converter consumes.
#[derive(Clone, Debug, PartialEq, Eq)]
pub enum MdEvent {
    Start(MdTag),
    End(MdTag),
    Text(String),
    Code(String),
    Html(String),
    FootnoteReference,
    SoftBreak,
    HardBreak,
    Rule,
    TaskListMarker(bool),
}

/// The events that the Markdown parser produces for a text, with strikethrough
/// and tables enabled.
pub uninterp spec fn md_events(text: Seq<char>) -> Seq<MdEvent>;

/// Relies on `pulldown_cmark::CowStr::into_string`: the parser's text as an
/// owned string.
#[verifier::external_body]
fn cow_string(c: CowStr) -> String {
    c.into_string()
}

/// Relies on `pulldown_cmark::Parser::new_ext`: parsing is deterministic, so
/// the event stream is a function of the text alone.
#[verifier::external_body]
pub(crate) fn markdown_events(text: &str) -> (r: Vec<MdEvent>)
    ensures
        r@ == md_events(text@),
{
    let options = Options::ENABLE_STRIKETHROUGH | Options::ENABLE_TABLES;
    Parser::new_ext(text, options).map(event_of).collect()
}

/// The library's heading level for the parser's.
pub open spec fn level_spec(l: HeadingLevel) -> Level {
    match l {
        HeadingLevel::H1 => Level::H1,
        HeadingLevel::H2 => Level::H2,
        HeadingLevel::H3 => Level::H3,
        HeadingLevel::H4 => Level::H4,
        HeadingLevel::H5 => Level::H5,
        HeadingLevel::H6 => Level::H6,
    }
}

/// The library's link kind for the parser's.
pub open spec fn link_kind_spec(t: LinkType) -> LinkKind {
    match t {
        LinkType::Inline => LinkKind::Inline,
        LinkType::Autolink => LinkKind::Bare,
        LinkType::Email => LinkKind::Bare,
        _ => LinkKind::Reference,
    }
}

/// `r` is the library's form of the parser's tag `t`: the same variant, with
/// the same heading level, list kind, column count and link kind. Nothing is
/// stated here of the text of a link's or an image's destination and title.
pub open spec fn tag_corresponds(t: Tag, r: MdTag) -> bool {
    match t {
        Tag::Paragraph => r == MdTag::Paragraph,
        Tag::Heading(l, _, _) => r == MdTag::Heading(level_spec(l)),
        Tag::BlockQuote => r == MdTag::BlockQuote,
        Tag::CodeBlock(_) => r == MdTag::CodeBlock,
        Tag::List(start) => r == MdTag::List(start is Some),
        Tag::Item => r == MdTag::Item,
        Tag::FootnoteDefinition(_) => r == MdTag::FootnoteDefinition,
        Tag::Table(alignments) => r is Table && r->Table_0 == alignments@.len(),
        Tag::TableHead => r == MdTag::TableHead,
        Tag::TableRow => r == MdTag::TableRow,
        Tag::TableCell => r == MdTag::TableCell,
        Tag::Emphasis => r == MdTag::Emphasis,
        Tag::Strong => r == MdTag::Strong,
        Tag::Strikethrough => r == MdTag::Strikethrough,
        Tag::Link(kind, _, _) => r is Link && r->Link_0 == link_kind_spec(kind),
        Tag::Image(_, _, _) => r is Image,
    }
}

/// `r` is the library's form of the parser's event `e`.
pub open spec fn event_corresponds(e: Event, r: MdEvent) -> bool {
    match e {
        Event::Start(t) => r is Start && tag_corresponds(t, r->Start_0),
        Event::End(t) => r is End && tag_corresponds(t, r->End_0),
        Event::Text(_) => r is Text,
        Event::Code(_) => r is Code,
        Event::Html(_) => r is Html,
        Event::FootnoteReference(_) => r == MdEvent::FootnoteReference,
        Event::SoftBreak => r == MdEvent::SoftBreak,
        Event::HardBreak => r == MdEvent::HardBreak,
        Event::Rule => r == MdEvent::Rule,
        Event::TaskListMarker(checked) => r == MdEvent::TaskListMarker(checked),
    }
}

pub fn level_of(l: HeadingLevel) -> (r: Level)
    ensures
        r == level_spec(l),
{
    match l {
        HeadingLevel::H1 => Level::H1,
        HeadingLevel::H2 => Level::H2,
        HeadingLevel::H3 => Level::H3,
        HeadingLevel::H4 => Level::H4,
        HeadingLevel::H5 => Level::H5,
        HeadingLevel::H6 => Level::H6,
    }
}

pub fn link_kind_of(t: LinkType) -> (r: LinkKind)
    ensures
        r == link_kind_spec(t),
{
    match t {
        LinkType::Inline => LinkKind::Inline,
        LinkType::Autolink | LinkType::Email => LinkKind::Bare,
        _ => LinkKind::Reference,
    }
}

/// The parser's tag, as the library's own value.
pub fn tag_of(t: Tag) -> (r: MdTag)
    ensures
        tag_corresponds(t, r),
{
    match t {
        Tag::Paragraph => MdTag::Paragraph,
        Tag::Heading(level, _, _) => MdTag::Heading(level_of(level)),
        Tag::BlockQuote => MdTag::BlockQuote,
        Tag::CodeBlock(_) => MdTag::CodeBlock,
        Tag::List(start) => MdTag::List(start.is_some()),
        Tag::Item => MdTag::Item,
        Tag::FootnoteDefinition(_) => MdTag::FootnoteDefinition,
        Tag::Table(alignments) => MdTag::Table(alignments.len()),
        Tag::TableHead => MdTag::TableHead,
        Tag::TableRow => MdTag::TableRow,
        Tag::TableCell => MdTag::TableCell,
        Tag::Emphasis => MdTag::Emphasis,
        Tag::Strong => MdTag::Strong,
        Tag::Strikethrough => MdTag::Strikethrough,
        Tag::Link(kind, dest, title) => MdTag::Link(
            link_kind_of(kind),
            cow_string(dest),
            cow_string(title),
        ),
        Tag::Image(_, dest, title) => MdTag::Image(cow_string(dest), cow_string(title)),
    }
}

/// The parser's event, as the library's own value.
pub fn event_of(e: Event) -> (r: MdEvent)
    ensures
        event_corresponds(e, r),
{
    match e {
        Event::Start(t) => MdEvent::Start(tag_of(t)),
        Event::End(t) => MdEvent::End(tag_of(t)),
        Event::Text(s) => MdEvent::Text(cow_string(s)),
        Event::Code(s) => MdEvent::Code(cow_string(s)),
        Event::Html(s) => MdEvent::Html(cow_string(s)),
        Event::FootnoteReference(_) => MdEvent::FootnoteReference,
        Event::SoftBreak => MdEvent::SoftBreak,
        Event::HardBreak => MdEvent::HardBreak,
        Event::Rule => MdEvent::Rule,
        Event::TaskListMarker(checked) => MdEvent::TaskListMarker(checked),
    }
}

} // verus!
