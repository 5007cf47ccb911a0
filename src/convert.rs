use vstd::prelude::*;
use crate::events::{Level, LinkKind, MdEvent, MdTag, markdown_events, md_events};
use crate::table::{
    TableBuilder, TableView, cell_text, decimal, decimal_digits, empty_table, table_markup,
    texts,
};

verus! {

/// Why a conversion stopped: the event stream held something that the parser
/// is configured never to produce, or a table region was malformed.
#[derive(Clone, Copy, Debug, PartialEq, Eq, Structural)]
pub enum EmtobeError {
    /// A footnote reference or definition arrived; footnotes are disabled.
    FootnotesDisabled,
    /// A task-list marker arrived; task lists are disabled.
    TaskListsDisabled,
    /// A table row closed with a cell count other than the table's column count.
    RowLengthMismatch,
    /// A table part closed outside any table.
    TableMissing,
}

/// What the converter holds between two events: the markup fragments emitted
/// so far, and the table being collected, if any.
pub ghost struct ConvState {
    pub frags: Seq<Seq<char>>,
    pub table: Option<TableView>,
}

pub open spec fn initial_state() -> ConvState {
    ConvState { frags: Seq::empty(), table: None }
}

/// Font size used for each heading level.
pub open spec fn heading_size(l: Level) -> nat {
    match l {
        Level::H1 => 36,
        Level::H2 => 24,
        Level::H3 => 18,
        Level::H4 => 12,
        Level::H5 => 10,
        Level::H6 => 8,
    }
}

/// The fragment emitted when a region opens, for every tag but the table ones.
pub open spec fn open_markup(t: MdTag) -> Option<Seq<char>> {
    match t {
        MdTag::Heading(l) => Some("[font_size="@ + decimal_digits(heading_size(l)) + "]"@),
        MdTag::BlockQuote => Some("> "@),
        MdTag::CodeBlock => Some("[code]"@),
        MdTag::List(ordered) => Some(if ordered { "[ol type=1]\n"@ } else { "[ul]\n"@ }),
        MdTag::Emphasis => Some("[i]"@),
        MdTag::Strong => Some("[b]"@),
        MdTag::Strikethrough => Some("[s]"@),
        MdTag::Link(kind, dest, title) => match kind {
            LinkKind::Bare => Some("[url]"@),
            LinkKind::Inline => Some(
                if title@.len() == 0 {
                    "[url="@ + dest@ + "]"@
                } else {
                    "[hint="@ + title@ + "]"@ + "[url="@ + dest@ + "]"@
                },
            ),
            LinkKind::Reference => None,
        },
        MdTag::Image(dest, title) => Some(
            if title@.len() == 0 {
                "[img]"@ + dest@ + "[/img]"@
            } else {
                "[hint="@ + title@ + "]"@ + "[img]"@ + dest@ + "[/img]"@ + "[/hint]"@
            },
        ),
        _ => None,
    }
}

/// The fragment emitted when a region closes, for every tag but the table ones.
pub open spec fn close_markup(t: MdTag) -> Option<Seq<char>> {
    match t {
        MdTag::Paragraph => Some("\n\n"@),
        MdTag::Heading(_) => Some("[/font_size]\n\n"@),
        MdTag::CodeBlock => Some("[/code]"@),
        MdTag::List(ordered) => Some(if ordered { "[/ol]\n\n"@ } else { "[/ul]\n\n"@ }),
        MdTag::Item => Some("\n"@),
        MdTag::Emphasis => Some("[/i]"@),
        MdTag::Strong => Some("[/b]"@),
        MdTag::Strikethrough => Some("[/s]"@),
        MdTag::Link(kind, _, title) => match kind {
            LinkKind::Bare => Some("[/url]"@),
            LinkKind::Inline => Some(
                if title@.len() == 0 {
                    "[/url]"@
                } else {
                    "[/url][/hint]"@
                },
            ),
            LinkKind::Reference => None,
        },
        _ => None,
    }
}

pub open spec fn emit(s: ConvState, f: Option<Seq<char>>) -> ConvState {
    match f {
        Some(x) => ConvState { frags: s.frags.push(x), ..s },
        None => s,
    }
}

pub open spec fn open_step(s: ConvState, t: MdTag) -> Result<ConvState, EmtobeError> {
    match t {
        MdTag::Table(n) => Ok(ConvState { table: Some(empty_table(n as nat)), ..s }),
        MdTag::FootnoteDefinition => Err(EmtobeError::FootnotesDisabled),
        _ => Ok(emit(s, open_markup(t))),
    }
}

pub open spec fn close_step(s: ConvState, t: MdTag) -> Result<ConvState, EmtobeError> {
    match t {
        MdTag::Table(_) => match s.table {
            Some(tb) => Ok(ConvState { frags: s.frags.push(table_markup(tb)), table: None }),
            None => Err(EmtobeError::TableMissing),
        },
        MdTag::TableHead | MdTag::TableRow => match s.table {
            Some(tb) => if tb.row.len() == tb.columns {
                Ok(
                    ConvState {
                        table: Some(TableView { rows: tb.rows.push(tb.row), row: Seq::empty(), ..tb }),
                        ..s
                    },
                )
            } else {
                Err(EmtobeError::RowLengthMismatch)
            },
            None => Err(EmtobeError::TableMissing),
        },
        MdTag::TableCell => match s.table {
            Some(tb) => Ok(
                ConvState {
                    table: Some(TableView { row: tb.row.push(cell_text(tb.cell)), cell: None, ..tb }),
                    ..s
                },
            ),
            None => Err(EmtobeError::TableMissing),
        },
        MdTag::FootnoteDefinition => Err(EmtobeError::FootnotesDisabled),
        _ => Ok(emit(s, close_markup(t))),
    }
}

/// Emits `x`, or adds it to the pending cell's text inside a table.
pub open spec fn put_text(s: ConvState, x: Seq<char>) -> ConvState {
    match s.table {
        Some(tb) => ConvState {
            table: Some(TableView { cell: Some(cell_text(tb.cell) + x), ..tb }),
            ..s
        },
        None => emit(s, Some(x)),
    }
}

/// The effect of one event. Inside a table, text, code and raw HTML all go
/// into the pending cell, each piece after the ones before it; a thematic
/// break emits nothing.
pub open spec fn step(s: ConvState, e: MdEvent) -> Result<ConvState, EmtobeError> {
    match e {
        MdEvent::Start(t) => open_step(s, t),
        MdEvent::End(t) => close_step(s, t),
        MdEvent::Text(x) => Ok(put_text(s, x@)),
        MdEvent::Code(x) => Ok(put_text(s, x@)),
        MdEvent::Html(x) => Ok(put_text(s, x@)),
        MdEvent::FootnoteReference => Err(EmtobeError::FootnotesDisabled),
        MdEvent::SoftBreak => Ok(emit(s, Some(" "@))),
        MdEvent::HardBreak => Ok(emit(s, Some("\n\n"@))),
        MdEvent::Rule => Ok(s),
        MdEvent::TaskListMarker(_) => Err(EmtobeError::TaskListsDisabled),
    }
}

/// The state after a whole event sequence, or the first error.
pub open spec fn run(events: Seq<MdEvent>) -> Result<ConvState, EmtobeError>
    decreases events.len(),
{
    if events.len() == 0 {
        Ok(initial_state())
    } else {
        match run(events.drop_last()) {
            Ok(s) => step(s, events.last()),
            Err(e) => Err(e),
        }
    }
}

pub open spec fn ends_with_blank_line(f: Seq<char>) -> bool {
    f.len() >= 2 && f[f.len() - 1] == '\n' && f[f.len() - 2] == '\n'
}

/// The fragments with one newline taken off the last one, where it ends in two.
pub open spec fn normalize(frags: Seq<Seq<char>>) -> Seq<Seq<char>> {
    if frags.len() > 0 && ends_with_blank_line(frags.last()) {
        frags.update(frags.len() - 1, frags.last().drop_last())
    } else {
        frags
    }
}

pub open spec fn concat(frags: Seq<Seq<char>>) -> Seq<char>
    decreases frags.len(),
{
    if frags.len() == 0 {
        Seq::empty()
    } else {
        concat(frags.drop_last()) + frags.last()
    }
}

/// The markup for a whole event sequence.
pub open spec fn render(events: Seq<MdEvent>) -> Result<Seq<char>, EmtobeError> {
    match run(events) {
        Ok(s) => Ok(concat(normalize(s.frags))),
        Err(e) => Err(e),
    }
}

/// An error part way through an event sequence is the error of the whole.
pub proof fn lemma_run_error_persists(events: Seq<MdEvent>, k: int)
    requires
        0 <= k <= events.len(),
        run(events.take(k)) is Err,
    ensures
        run(events) == run(events.take(k)),
    decreases events.len() - k,
{
    if k < events.len() {
        let next = events.take(k + 1);
        assert(next.drop_last() =~= events.take(k));
        lemma_run_error_persists(events, k + 1);
    } else {
        assert(events.take(k) =~= events);
    }
}

/// Converts Markdown to bracketed rich-text markup.
#[derive(Debug)]
pub struct Emtobe {
    builder: Vec<String>,
    table_builder: Option<TableBuilder>,
}

impl Emtobe {
    pub closed spec fn state(&self) -> ConvState {
        ConvState {
            frags: texts(self.builder@),
            table: match self.table_builder {
                Some(t) => Some(t@),
                None => None,
            },
        }
    }

    pub fn new() -> (r: Self)
        ensures
            r.state() == initial_state(),
    {
        let r = Emtobe { builder: Vec::new(), table_builder: None };
        assert(r.state().frags =~= Seq::empty());
        r
    }

    fn emit(&mut self, f: String)
        ensures
            final(self).state() == emit(old(self).state(), Some(f@)),
    {
        self.builder.push(f);
        assert(texts(self.builder@) =~= texts(old(self).builder@).push(f@));
    }

    fn open_fragment(tag: &MdTag) -> (r: Option<String>)
        ensures
            match r {
                Some(x) => open_markup(*tag) == Some(x@),
                None => open_markup(*tag) is None,
            },
    {
        match tag {
            MdTag::Heading(level) => {
                let size: usize = match level {
                    Level::H1 => 36,
                    Level::H2 => 24,
                    Level::H3 => 18,
                    Level::H4 => 12,
                    Level::H5 => 10,
                    Level::H6 => 8,
                };
                let mut s = String::from_str("[font_size=");
                let digits = decimal(size);
                s.append(digits.as_str());
                s.append("]");
                Some(s)
            },
            MdTag::BlockQuote => Some(String::from_str("> ")),
            MdTag::CodeBlock => Some(String::from_str("[code]")),
            MdTag::List(ordered) => Some(
                if *ordered {
                    String::from_str("[ol type=1]\n")
                } else {
                    String::from_str("[ul]\n")
                },
            ),
            MdTag::Emphasis => Some(String::from_str("[i]")),
            MdTag::Strong => Some(String::from_str("[b]")),
            MdTag::Strikethrough => Some(String::from_str("[s]")),
            MdTag::Link(kind, dest, title) => match kind {
                LinkKind::Bare => Some(String::from_str("[url]")),
                LinkKind::Inline => {
                    let mut s = String::new();
                    if title.unicode_len() != 0 {
                        s.append("[hint=");
                        s.append(title.as_str());
                        s.append("]");
                    }
                    s.append("[url=");
                    s.append(dest.as_str());
                    s.append("]");
                    proof {
                        if title@.len() == 0 {
                            assert(s@ =~= "[url="@ + dest@ + "]"@);
                        } else {
                            assert(s@ =~= "[hint="@ + title@ + "]"@ + "[url="@ + dest@ + "]"@);
                        }
                    }
                    Some(s)
                },
                LinkKind::Reference => None,
            },
            MdTag::Image(dest, title) => {
                let mut s = String::new();
                let hinted = title.unicode_len() != 0;
                if hinted {
                    s.append("[hint=");
                    s.append(title.as_str());
                    s.append("]");
                }
                s.append("[img]");
                s.append(dest.as_str());
                s.append("[/img]");
                if hinted {
                    s.append("[/hint]");
                }
                proof {
                    if title@.len() == 0 {
                        assert(s@ =~= "[img]"@ + dest@ + "[/img]"@);
                    } else {
                        assert(s@ =~= "[hint="@ + title@ + "]"@ + "[img]"@ + dest@ + "[/img]"@
                            + "[/hint]"@);
                    }
                }
                Some(s)
            },
            _ => None,
        }
    }

    fn close_fragment(tag: &MdTag) -> (r: Option<String>)
        ensures
            match r {
                Some(x) => close_markup(*tag) == Some(x@),
                None => close_markup(*tag) is None,
            },
    {
        match tag {
            MdTag::Paragraph => Some(String::from_str("\n\n")),
            MdTag::Heading(_) => Some(String::from_str("[/font_size]\n\n")),
            MdTag::CodeBlock => Some(String::from_str("[/code]")),
            MdTag::List(ordered) => Some(
                if *ordered {
                    String::from_str("[/ol]\n\n")
                } else {
                    String::from_str("[/ul]\n\n")
                },
            ),
            MdTag::Item => Some(String::from_str("\n")),
            MdTag::Emphasis => Some(String::from_str("[/i]")),
            MdTag::Strong => Some(String::from_str("[/b]")),
            MdTag::Strikethrough => Some(String::from_str("[/s]")),
            MdTag::Link(kind, _, title) => match kind {
                LinkKind::Bare => Some(String::from_str("[/url]")),
                LinkKind::Inline => Some(
                    if title.unicode_len() == 0 {
                        String::from_str("[/url]")
                    } else {
                        String::from_str("[/url][/hint]")
                    },
                ),
                LinkKind::Reference => None,
            },
            _ => None,
        }
    }

    /// Handles the start of a region. A footnote definition never reaches
    /// it: footnotes are disabled.
    pub fn handle_open_tag(&mut self, tag: &MdTag)
        requires
            open_step(old(self).state(), *tag) is Ok,
        ensures
            final(self).state() == open_step(old(self).state(), *tag)->Ok_0,
    {
        match tag {
            MdTag::Table(n) => {
                self.table_builder = Some(TableBuilder::new(*n));
            },
            _ => {
                match Self::open_fragment(tag) {
                    Some(f) => self.emit(f),
                    None => {},
                }
            },
        }
    }

    /// The error that closing `tag` now would be, if any.
    pub fn close_error(&self, tag: &MdTag) -> (r: Option<EmtobeError>)
        ensures
            match close_step(self.state(), *tag) {
                Ok(_) => r is None,
                Err(e) => r == Some(e),
            },
    {
        match tag {
            MdTag::Table(_) | MdTag::TableCell => match &self.table_builder {
                Some(_) => None,
                None => Some(EmtobeError::TableMissing),
            },
            MdTag::TableHead | MdTag::TableRow => match &self.table_builder {
                Some(builder) => if builder.row_len() == builder.column_count() {
                    None
                } else {
                    Some(EmtobeError::RowLengthMismatch)
                },
                None => Some(EmtobeError::TableMissing),
            },
            MdTag::FootnoteDefinition => Some(EmtobeError::FootnotesDisabled),
            _ => None,
        }
    }

    /// Handles the end of a region. Table parts close only inside a table,
    /// a row only when it has one cell per column, and a footnote definition
    /// never arrives.
    pub fn handle_close_tag(&mut self, tag: &MdTag)
        requires
            close_step(old(self).state(), *tag) is Ok,
        ensures
            final(self).state() == close_step(old(self).state(), *tag)->Ok_0,
    {
        match tag {
            MdTag::Table(_) => {
                let taken = self.table_builder.take();
                match taken {
                    Some(builder) => {
                        let block = builder.build_table();
                        self.emit(block);
                    },
                    None => {},
                }
            },
            MdTag::TableHead | MdTag::TableRow => match &mut self.table_builder {
                Some(builder) => builder.build_row(),
                None => {},
            },
            MdTag::TableCell => match &mut self.table_builder {
                Some(builder) => builder.finish_cell(),
                None => {},
            },
            _ => {
                match Self::close_fragment(tag) {
                    Some(f) => self.emit(f),
                    None => {},
                }
            },
        }
    }

    /// Emits `text`, or adds it to the pending cell inside a table.
    fn put_text(&mut self, text: &String)
        ensures
            final(self).state() == put_text(old(self).state(), text@),
    {
        match &mut self.table_builder {
            Some(builder) => builder.push_cell(text.clone()),
            None => self.emit(text.clone()),
        }
    }

    /// Handles one event; an event that the stream must not hold at this
    /// point is reported as an error and changes nothing.
    pub fn handle_event(&mut self, event: &MdEvent) -> (r: Result<(), EmtobeError>)
        ensures
            match step(old(self).state(), *event) {
                Ok(s) => r is Ok && final(self).state() == s,
                Err(e) => r == Err::<(), EmtobeError>(e) && final(self).state() == old(self).state(),
            },
    {
        match event {
            MdEvent::Start(tag) => match tag {
                MdTag::FootnoteDefinition => Err(EmtobeError::FootnotesDisabled),
                _ => {
                    self.handle_open_tag(tag);
                    Ok(())
                },
            },
            MdEvent::End(tag) => match self.close_error(tag) {
                Some(e) => Err(e),
                None => {
                    self.handle_close_tag(tag);
                    Ok(())
                },
            },
            MdEvent::Text(text) => {
                self.put_text(text);
                Ok(())
            },
            MdEvent::Code(text) => {
                self.put_text(text);
                Ok(())
            },
            MdEvent::Html(text) => {
                self.put_text(text);
                Ok(())
            },
            MdEvent::FootnoteReference => Err(EmtobeError::FootnotesDisabled),
            MdEvent::SoftBreak => {
                self.emit(String::from_str(" "));
                Ok(())
            },
            MdEvent::HardBreak => {
                self.emit(String::from_str("\n\n"));
                Ok(())
            },
            MdEvent::Rule => Ok(()),
            MdEvent::TaskListMarker(_) => Err(EmtobeError::TaskListsDisabled),
        }
    }

    /// Empties the fragment list and drops any table under construction.
    fn reset(&mut self)
        ensures
            final(self).state() == initial_state(),
    {
        self.builder = Vec::new();
        self.table_builder = None;
        assert(self.state().frags =~= Seq::empty());
    }

    /// Joins the fragments into the output, with one newline taken off the
    /// last fragment where it ends in two, and leaves the converter empty.
    fn finish(&mut self) -> (r: String)
        ensures
            r@ == concat(normalize(old(self).state().frags)),
            final(self).state() == initial_state(),
    {
        let ghost frags = self.state().frags;
        let n = self.builder.len();
        if n > 0 {
            let len = self.builder[n - 1].unicode_len();
            if len >= 2 && self.builder[n - 1].get_char(len - 1) == '\n'
                && self.builder[n - 1].get_char(len - 2) == '\n' {
                let trimmed = self.builder[n - 1].as_str().substring_char(0, len - 1).to_owned();
                self.builder.pop();
                self.builder.push(trimmed);
            }
        }
        assert(texts(self.builder@) =~= normalize(frags));
        let ghost parts = normalize(frags);
        let mut out = String::new();
        let mut i: usize = 0;
        while i < self.builder.len()
            invariant
                i <= self.builder@.len(),
                parts == texts(self.builder@),
                out@ == concat(parts.take(i as int)),
            decreases self.builder@.len() - i,
        {
            out.append(self.builder[i].as_str());
            proof {
                assert(parts.take(i + 1).drop_last() =~= parts.take(i as int));
            }
            i += 1;
        }
        assert(parts.take(i as int) =~= parts);
        self.reset();
        out
    }

    /// Converts a whole event sequence. The converter starts empty and is
    /// left empty, so one call does not affect the next.
    pub fn convert(&mut self, events: &Vec<MdEvent>) -> (r: Result<String, EmtobeError>)
        ensures
            match render(events@) {
                Ok(out) => r is Ok && r->Ok_0@ == out,
                Err(e) => r == Err::<String, EmtobeError>(e),
            },
            final(self).state() == initial_state(),
    {
        self.reset();
        let mut i: usize = 0;
        while i < events.len()
            invariant
                i <= events@.len(),
                run(events@.take(i as int)) == Ok::<ConvState, EmtobeError>(self.state()),
            decreases events@.len() - i,
        {
            let ghost before = self.state();
            let handled = self.handle_event(&events[i]);
            proof {
                assert(events@.take(i + 1).drop_last() =~= events@.take(i as int));
            }
            match handled {
                Ok(()) => {},
                Err(e) => {
                    proof {
                        lemma_run_error_persists(events@, i + 1);
                    }
                    self.reset();
                    return Err(e);
                },
            }
            i += 1;
        }
        assert(events@.take(i as int) =~= events@);
        let out = self.finish();
        Ok(out)
    }

    /// Parses Markdown text and converts it.
    pub fn parse(&mut self, text: &str) -> (r: Result<String, EmtobeError>)
        ensures
            match render(md_events(text@)) {
                Ok(out) => r is Ok && r->Ok_0@ == out,
                Err(e) => r == Err::<String, EmtobeError>(e),
            },
            final(self).state() == initial_state(),
    {
        let events = markdown_events(text);
        self.convert(&events)
    }
}

} // verus!
