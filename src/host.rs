use vstd::prelude::*;
use crate::convert::{Emtobe, render};
use crate::events::md_events;

verus! {

/// What a host shows for a text: its markup, or a fixed message where the
/// conversion failed.
pub open spec fn shown(text: Seq<char>) -> Seq<char> {
    match render(md_events(text)) {
        Ok(out) => out,
        Err(_) => "parsing error"@,
    }
}

/// A converter for hosts that take a plain string back.
#[derive(Debug)]
pub struct EmtobeBinding {
    emtobe: Emtobe,
}

impl EmtobeBinding {
    pub fn new() -> Self {
        EmtobeBinding { emtobe: Emtobe::new() }
    }

    /// The markup for `text`, or `"parsing error"`.
    pub fn parse(&mut self, text: String) -> (r: String)
        ensures
            r@ == shown(text@),
    {
        match self.emtobe.parse(text.as_str()) {
            Ok(v) => v,
            Err(_) => String::from_str("parsing error"),
        }
    }
}

/// A rich-text label that displays Markdown: it keeps the Markdown source and
/// the markup that it currently shows.
#[derive(Debug)]
pub struct MarkdownLabel {
    emtobe: Emtobe,
    markdown: String,
    text: String,
}

impl MarkdownLabel {
    pub closed spec fn markdown_view(&self) -> Seq<char> {
        self.markdown@
    }

    pub closed spec fn text_view(&self) -> Seq<char> {
        self.text@
    }

    pub fn new() -> (r: Self)
        ensures
            r.markdown_view() == Seq::<char>::empty(),
            r.text_view() == Seq::<char>::empty(),
    {
        MarkdownLabel { emtobe: Emtobe::new(), markdown: String::new(), text: String::new() }
    }

    pub fn get_markdown(&self) -> (r: String)
        ensures
            r@ == self.markdown_view(),
    {
        self.markdown.clone()
    }

    /// The markup currently shown.
    pub fn get_text(&self) -> (r: String)
        ensures
            r@ == self.text_view(),
    {
        self.text.clone()
    }

    /// Replaces the Markdown source and renders it again.
    pub fn set_markdown(&mut self, markdown: String)
        ensures
            final(self).markdown_view() == markdown@,
            match render(md_events(markdown@)) {
                Ok(out) => final(self).text_view() == out,
                Err(_) => final(self).text_view() == old(self).text_view(),
            },
    {
        self.markdown = markdown;
        self.refresh();
    }

    /// Converts `text` alone and, where that succeeds, appends it to the
    /// source and its markup to what is shown; on failure nothing changes.
    pub fn append(&mut self, text: String)
        ensures
            match render(md_events(text@)) {
                Ok(out) => final(self).markdown_view() == old(self).markdown_view() + text@
                    && final(self).text_view() == old(self).text_view() + out,
                Err(_) => final(self).markdown_view() == old(self).markdown_view()
                    && final(self).text_view() == old(self).text_view(),
            },
    {
        match self.emtobe.parse(text.as_str()) {
            Ok(v) => {
                self.markdown.append(text.as_str());
                self.text.append(v.as_str());
            },
            Err(_) => {},
        }
    }

    /// Renders the whole source again; on failure what is shown stays.
    pub fn refresh(&mut self)
        ensures
            final(self).markdown_view() == old(self).markdown_view(),
            match render(md_events(old(self).markdown_view())) {
                Ok(out) => final(self).text_view() == out,
                Err(_) => final(self).text_view() == old(self).text_view(),
            },
    {
        match self.emtobe.parse(self.markdown.as_str()) {
            Ok(v) => {
                self.text = v;
            },
            Err(_) => {},
        }
    }
}

} // verus!
