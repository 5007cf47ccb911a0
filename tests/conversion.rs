use emtobe::convert::{Emtobe, EmtobeError};
use emtobe::events::{Level, LinkKind, MdEvent, MdTag};
use emtobe::host::{EmtobeBinding, MarkdownLabel};
use emtobe::table::{decimal, TableBuilder};

fn s(text: &str) -> String {
    text.to_string()
}

#[test]
fn parse() {
    let mut emtobe = Emtobe::new();

    let output = emtobe.parse(
        r"# Test Header

## Subheader

*Hello* **world**!

Goodbye.

- hello
- world

[godot](godotengine.org 'blah')

<https://godotengine.org>

New paragraph
with text on the next line but same paragraph.

| first | second | third |
| --- | --- | --- |
| hello | world | |
",
    );

    assert!(output.is_ok());
    assert_eq!(
        output.unwrap(),
        r"[font_size=36]Test Header[/font_size]

[font_size=24]Subheader[/font_size]

[i]Hello[/i] [b]world[/b]!

Goodbye.

[ul]
hello
world
[/ul]

[hint=blah][url=godotengine.org]godot[/url][/hint]

[url]https://godotengine.org[/url]

New paragraph with text on the next line but same paragraph.

[table=3]
[cell]first[/cell][cell]second[/cell][cell]third[/cell]
[cell]hello[/cell][cell]world[/cell][cell][/cell]
[/table]
"
    );
}

#[test]
fn header() {
    assert_eq!(
        Emtobe::new().parse("# Hello World").unwrap(),
        "[font_size=36]Hello World[/font_size]\n"
    )
}

#[test]
fn heading_sizes_by_level() {
    let mut emtobe = Emtobe::new();
    let cases = [
        ("# a", "[font_size=36]a[/font_size]\n"),
        ("## a", "[font_size=24]a[/font_size]\n"),
        ("### a", "[font_size=18]a[/font_size]\n"),
        ("#### a", "[font_size=12]a[/font_size]\n"),
        ("##### a", "[font_size=10]a[/font_size]\n"),
        ("###### a", "[font_size=8]a[/font_size]\n"),
    ];
    for (input, expected) in cases {
        assert_eq!(emtobe.parse(input).unwrap(), expected);
    }
}

#[test]
fn heading_level_events() {
    let events = vec![
        MdEvent::Start(MdTag::Heading(Level::H3)),
        MdEvent::Text(s("x")),
        MdEvent::End(MdTag::Heading(Level::H3)),
    ];
    assert_eq!(Emtobe::new().convert(&events).unwrap(), "[font_size=18]x[/font_size]\n");
}

#[test]
fn nested_emphasis_is_balanced() {
    let out = Emtobe::new().parse("a *b **c** ~~d~~* e").unwrap();
    assert_eq!(out, "a [i]b [b]c[/b] [s]d[/s][/i] e\n");
}

#[test]
fn table_with_three_columns_and_one_data_row() {
    let out = Emtobe::new()
        .parse("| a | b | c |\n| --- | --- | --- |\n| hello | world | |\n")
        .unwrap();
    assert_eq!(
        out,
        "[table=3]\n[cell]a[/cell][cell]b[/cell][cell]c[/cell]\n[cell]hello[/cell][cell]world[/cell][cell][/cell]\n[/table]\n"
    );
}

#[test]
fn trailing_blank_line_trimmed_to_one_newline() {
    let out = Emtobe::new().parse("one\n\ntwo\n\n\n").unwrap();
    assert_eq!(out, "one\n\ntwo\n");
    let list = Emtobe::new().parse("1. x\n2. y").unwrap();
    assert_eq!(list, "[ol type=1]\nx\ny\n[/ol]\n");
}

#[test]
fn soft_break_becomes_space() {
    let out = Emtobe::new().parse("first\nsecond").unwrap();
    assert_eq!(out, "first second\n");
}

#[test]
fn hard_break_becomes_blank_line() {
    let out = Emtobe::new().parse("first  \nsecond").unwrap();
    assert_eq!(out, "first\n\nsecond\n");
}

#[test]
fn link_with_and_without_title() {
    let mut emtobe = Emtobe::new();
    assert_eq!(
        emtobe.parse("[text](dest \"title\")").unwrap(),
        "[hint=title][url=dest]text[/url][/hint]\n"
    );
    assert_eq!(emtobe.parse("[text](dest)").unwrap(), "[url=dest]text[/url]\n");
}

#[test]
fn image_with_title() {
    let events = vec![
        MdEvent::Start(MdTag::Image(s("p.png"), s("t"))),
        MdEvent::End(MdTag::Image(s("p.png"), s("t"))),
    ];
    assert_eq!(
        Emtobe::new().convert(&events).unwrap(),
        "[hint=t][img]p.png[/img][/hint]"
    );
}

#[test]
fn code_block_and_quote() {
    let out = Emtobe::new().parse("```\nlet x;\n```").unwrap();
    assert_eq!(out, "[code]let x;\n[/code]");
    let quote = Emtobe::new().parse("> q").unwrap();
    assert_eq!(quote, "> q\n");
}

#[test]
fn sequential_calls_do_not_leak() {
    let mut emtobe = Emtobe::new();
    let first = emtobe.parse("*a*").unwrap();
    let second = emtobe.parse("*a*").unwrap();
    assert_eq!(first, "[i]a[/i]\n");
    assert_eq!(first, second);
    let failed = emtobe.convert(&vec![MdEvent::Text(s("x")), MdEvent::FootnoteReference]);
    assert_eq!(failed, Err(EmtobeError::FootnotesDisabled));
    assert_eq!(emtobe.parse("b").unwrap(), "b\n");
}

#[test]
fn empty_input() {
    assert_eq!(Emtobe::new().parse("").unwrap(), "");
}

#[test]
fn rule_emits_nothing() {
    let events = vec![MdEvent::Text(s("a")), MdEvent::Rule, MdEvent::Text(s("b"))];
    assert_eq!(Emtobe::new().convert(&events).unwrap(), "ab");
}

#[test]
fn errors_for_disabled_and_malformed_events() {
    let mut emtobe = Emtobe::new();
    assert_eq!(
        emtobe.convert(&vec![MdEvent::Start(MdTag::FootnoteDefinition)]),
        Err(EmtobeError::FootnotesDisabled)
    );
    assert_eq!(
        emtobe.convert(&vec![MdEvent::TaskListMarker(true)]),
        Err(EmtobeError::TaskListsDisabled)
    );
    assert_eq!(
        emtobe.convert(&vec![MdEvent::End(MdTag::TableCell)]),
        Err(EmtobeError::TableMissing)
    );
    assert_eq!(
        emtobe.convert(&vec![
            MdEvent::Start(MdTag::Table(2)),
            MdEvent::Start(MdTag::TableRow),
            MdEvent::Start(MdTag::TableCell),
            MdEvent::End(MdTag::TableCell),
            MdEvent::End(MdTag::TableRow),
        ]),
        Err(EmtobeError::RowLengthMismatch)
    );
}

#[test]
fn text_in_cell_is_joined() {
    let events = vec![
        MdEvent::Start(MdTag::Table(1)),
        MdEvent::Start(MdTag::TableHead),
        MdEvent::Start(MdTag::TableCell),
        MdEvent::Text(s("one")),
        MdEvent::Text(s("two")),
        MdEvent::End(MdTag::TableCell),
        MdEvent::End(MdTag::TableHead),
        MdEvent::End(MdTag::Table(1)),
    ];
    assert_eq!(
        Emtobe::new().convert(&events).unwrap(),
        "[table=1]\n[cell]onetwo[/cell]\n[/table]\n"
    );
}

#[test]
fn bare_and_reference_links() {
    let events = vec![
        MdEvent::Start(MdTag::Link(LinkKind::Bare, s("x"), s(""))),
        MdEvent::Text(s("x")),
        MdEvent::End(MdTag::Link(LinkKind::Bare, s("x"), s(""))),
        MdEvent::Start(MdTag::Link(LinkKind::Reference, s("y"), s(""))),
        MdEvent::Text(s("y")),
        MdEvent::End(MdTag::Link(LinkKind::Reference, s("y"), s(""))),
    ];
    assert_eq!(Emtobe::new().convert(&events).unwrap(), "[url]x[/url]y");
}

#[test]
fn table_builder_renders_rows() {
    let mut t = TableBuilder::new(2);
    t.push_cell(s("a"));
    t.finish_cell();
    t.finish_cell();
    assert_eq!(t.row_len(), 2);
    assert_eq!(t.column_count(), 2);
    t.build_row();
    assert_eq!(t.row_len(), 0);
    t.push_cell(s("c"));
    t.push_cell(s("d"));
    t.finish_cell();
    t.push_cell(s("e"));
    t.finish_cell();
    t.build_row();
    assert_eq!(
        t.build_table(),
        "[table=2]\n[cell]a[/cell][cell][/cell]\n[cell]cd[/cell][cell]e[/cell]\n[/table]\n"
    );
}

#[test]
fn empty_table_block() {
    assert_eq!(TableBuilder::new(0).build_table(), "[table=0]\n[/table]\n");
}

#[test]
fn decimal_numbers() {
    assert_eq!(decimal(0), "0");
    assert_eq!(decimal(7), "7");
    assert_eq!(decimal(36), "36");
    assert_eq!(decimal(1203), "1203");
    assert_eq!(decimal(usize::MAX), usize::MAX.to_string());
}

#[test]
fn binding_parse() {
    let mut binding = EmtobeBinding::new();
    assert_eq!(binding.parse(s("**b**")), "[b]b[/b]\n");
    assert_eq!(binding.parse(s("a\nb")), "a b\n");
}

#[test]
fn label_set_append_refresh() {
    let mut label = MarkdownLabel::new();
    assert_eq!(label.get_markdown(), "");
    label.set_markdown(s("# T"));
    assert_eq!(label.get_markdown(), "# T");
    assert_eq!(label.get_text(), "[font_size=36]T[/font_size]\n");
    label.append(s("*x*"));
    assert_eq!(label.get_markdown(), "# T*x*");
    assert_eq!(label.get_text(), "[font_size=36]T[/font_size]\n[i]x[/i]\n");
    label.refresh();
    assert_eq!(label.get_text(), "[font_size=36]T[i]x[/i][/font_size]\n");
}

#[test]
fn code_span_stays_in_its_cell() {
    let out = Emtobe::new().parse("| `a` b |\n| --- |\n").unwrap();
    assert_eq!(out, "[table=1]\n[cell]a b[/cell]\n[/table]\n");
}

#[test]
fn reference_link_emits_no_tags() {
    let out = Emtobe::new().parse("[text][r]\n\n[r]: dest \"t\"").unwrap();
    assert_eq!(out, "text\n");
}

#[test]
fn image_from_text() {
    let out = Emtobe::new().parse("![alt](p.png)").unwrap();
    assert_eq!(out, "[img]p.png[/img]alt\n");
}

#[test]
fn close_outside_table_changes_nothing() {
    let mut emtobe = Emtobe::new();
    emtobe.handle_open_tag(&MdTag::Emphasis);
    assert_eq!(
        emtobe.handle_event(&MdEvent::End(MdTag::TableRow)),
        Err(EmtobeError::TableMissing)
    );
    assert_eq!(emtobe.handle_event(&MdEvent::End(MdTag::Emphasis)), Ok(()));
}
