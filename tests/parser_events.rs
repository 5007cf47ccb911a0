use emtobe::events::{event_of, link_kind_of, tag_of, Level, LinkKind, MdEvent, MdTag};
use pulldown_cmark::{Alignment, CowStr, Event, HeadingLevel, LinkType, Tag};

#[test]
fn heading_event_converts() {
    let e = Event::Start(Tag::Heading(HeadingLevel::H2, None, vec![]));
    assert_eq!(event_of(e), MdEvent::Start(MdTag::Heading(Level::H2)));
}

#[test]
fn text_event_keeps_its_text() {
    let e = Event::Text(CowStr::Borrowed("hello"));
    assert_eq!(event_of(e), MdEvent::Text("hello".to_string()));
    assert_eq!(event_of(Event::SoftBreak), MdEvent::SoftBreak);
}

#[test]
fn table_tag_counts_alignments() {
    let t = Tag::Table(vec![Alignment::None, Alignment::Left, Alignment::Right]);
    assert_eq!(tag_of(t), MdTag::Table(3));
    assert_eq!(tag_of(Tag::List(Some(1))), MdTag::List(true));
    assert_eq!(tag_of(Tag::List(None)), MdTag::List(false));
}

#[test]
fn link_tag_keeps_destination_and_title() {
    let t = Tag::Link(LinkType::Inline, CowStr::Borrowed("d"), CowStr::Borrowed("t"));
    assert_eq!(
        tag_of(t),
        MdTag::Link(LinkKind::Inline, "d".to_string(), "t".to_string())
    );
    assert_eq!(link_kind_of(LinkType::Email), LinkKind::Bare);
    assert_eq!(link_kind_of(LinkType::Shortcut), LinkKind::Reference);
}
