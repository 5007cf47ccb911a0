use vstd::prelude::*;
use crate::convert::{
    ConvState, close_markup, concat, emit, ends_with_blank_line, normalize, open_markup, render,
    run, step,
};
use crate::events::{Level, LinkKind, MdEvent, MdTag};
use crate::table::decimal_digits;

verus! {

/// Running one more event is one more step from where the prefix left off.
pub proof fn lemma_run_push(events: Seq<MdEvent>, e: MdEvent)
    ensures
        run(events.push(e)) == match run(events) {
            Ok(s) => step(s, e),
            Err(x) => Err(x),
        },
{
    assert(events.push(e).drop_last() =~= events);
}

/// The joined fragments end with the last fragment.
pub proof fn lemma_concat_push(frags: Seq<Seq<char>>, f: Seq<char>)
    ensures
        concat(frags.push(f)) == concat(frags) + f,
{
    assert(frags.push(f).drop_last() =~= frags);
}

/// Tags that may appear in running text.
pub open spec fn is_inline_tag(t: MdTag) -> bool {
    t is Paragraph || t is Emphasis || t is Strong || t is Strikethrough
}

/// Events made of paragraphs, inline emphasis, text and line breaks only.
pub open spec fn is_inline_event(e: MdEvent) -> bool {
    match e {
        MdEvent::Start(t) => is_inline_tag(t),
        MdEvent::End(t) => is_inline_tag(t),
        MdEvent::Text(_) => true,
        MdEvent::Code(_) => true,
        MdEvent::SoftBreak => true,
        MdEvent::HardBreak => true,
        _ => false,
    }
}

/// The fragment that an inline event contributes, if any.
pub open spec fn inline_fragment(e: MdEvent) -> Option<Seq<char>> {
    match e {
        MdEvent::Start(t) => open_markup(t),
        MdEvent::End(t) => close_markup(t),
        MdEvent::Text(x) => Some(x@),
        MdEvent::Code(x) => Some(x@),
        MdEvent::SoftBreak => Some(" "@),
        MdEvent::HardBreak => Some("\n\n"@),
        _ => None,
    }
}

/// The inline fragments of a sequence of events, in event order.
pub open spec fn inline_fragments(events: Seq<MdEvent>) -> Seq<Seq<char>>
    decreases events.len(),
{
    if events.len() == 0 {
        Seq::empty()
    } else {
        match inline_fragment(events.last()) {
            Some(f) => inline_fragments(events.drop_last()).push(f),
            None => inline_fragments(events.drop_last()),
        }
    }
}

/// The name inside the brackets of an emphasis tag.
pub open spec fn emphasis_name(t: MdTag) -> Seq<char> {
    match t {
        MdTag::Emphasis => "i"@,
        MdTag::Strong => "b"@,
        _ => "s"@,
    }
}

/// Text made only of paragraphs and inline emphasis never fails, and yields,
/// in event order, one `[x]` for each opened emphasis, the `[/x]` of the same
/// name for each closed one, and the text and breaks between them: tags come
/// out exactly as nested as the regions that they mark.
pub proof fn lemma_inline_markup_in_order(events: Seq<MdEvent>)
    requires
        forall|i: int| 0 <= i < events.len() ==> is_inline_event(#[trigger] events[i]),
    ensures
        run(events) == Ok::<ConvState, crate::convert::EmtobeError>(
            ConvState { frags: inline_fragments(events), table: None },
        ),
        forall|t: MdTag|
            (t is Emphasis || t is Strong || t is Strikethrough) ==> open_markup(t) == Some(
                "["@ + emphasis_name(t) + "]"@,
            ) && close_markup(t) == Some("[/"@ + emphasis_name(t) + "]"@),
    decreases events.len(),
{
    reveal_strlit("[");
    reveal_strlit("]");
    reveal_strlit("[/");
    reveal_strlit("i");
    reveal_strlit("b");
    reveal_strlit("s");
    reveal_strlit("[i]");
    reveal_strlit("[b]");
    reveal_strlit("[s]");
    reveal_strlit("[/i]");
    reveal_strlit("[/b]");
    reveal_strlit("[/s]");
    assert("["@ + "i"@ + "]"@ =~= "[i]"@);
    assert("["@ + "b"@ + "]"@ =~= "[b]"@);
    assert("["@ + "s"@ + "]"@ =~= "[s]"@);
    assert("[/"@ + "i"@ + "]"@ =~= "[/i]"@);
    assert("[/"@ + "b"@ + "]"@ =~= "[/b]"@);
    assert("[/"@ + "s"@ + "]"@ =~= "[/s]"@);
    if events.len() > 0 {
        let prefix = events.drop_last();
        assert forall|i: int| 0 <= i < prefix.len() implies is_inline_event(#[trigger] prefix[i]) by {
            assert(prefix[i] == events[i]);
        }
        lemma_inline_markup_in_order(prefix);
        lemma_run_push(prefix, events.last());
        assert(prefix.push(events.last()) =~= events);
        assert(is_inline_event(events[events.len() - 1]));
    }
}

/// Each heading level opens with its own font size: 36, 24, 18, 12, 10 and 8
/// from level one to six.
pub proof fn lemma_heading_sizes()
    ensures
        open_markup(MdTag::Heading(Level::H1)) == Some("[font_size=36]"@),
        open_markup(MdTag::Heading(Level::H2)) == Some("[font_size=24]"@),
        open_markup(MdTag::Heading(Level::H3)) == Some("[font_size=18]"@),
        open_markup(MdTag::Heading(Level::H4)) == Some("[font_size=12]"@),
        open_markup(MdTag::Heading(Level::H5)) == Some("[font_size=10]"@),
        open_markup(MdTag::Heading(Level::H6)) == Some("[font_size=8]"@),
        forall|l: Level| close_markup(MdTag::Heading(l)) == Some("[/font_size]\n\n"@),
{
    reveal_strlit("[font_size=");
    reveal_strlit("]");
    reveal_strlit("[font_size=36]");
    reveal_strlit("[font_size=24]");
    reveal_strlit("[font_size=18]");
    reveal_strlit("[font_size=12]");
    reveal_strlit("[font_size=10]");
    reveal_strlit("[font_size=8]");
    assert(decimal_digits(36) =~= seq!['3', '6']) by {
        assert(decimal_digits(3) =~= seq!['3']);
    }
    assert(decimal_digits(24) =~= seq!['2', '4']) by {
        assert(decimal_digits(2) =~= seq!['2']);
    }
    assert(decimal_digits(18) =~= seq!['1', '8']) by {
        assert(decimal_digits(1) =~= seq!['1']);
    }
    assert(decimal_digits(12) =~= seq!['1', '2']) by {
        assert(decimal_digits(1) =~= seq!['1']);
    }
    assert(decimal_digits(10) =~= seq!['1', '0']) by {
        assert(decimal_digits(1) =~= seq!['1']);
    }
    assert(decimal_digits(8) =~= seq!['8']);
    assert("[font_size="@ + decimal_digits(36) + "]"@ =~= "[font_size=36]"@);
    assert("[font_size="@ + decimal_digits(24) + "]"@ =~= "[font_size=24]"@);
    assert("[font_size="@ + decimal_digits(18) + "]"@ =~= "[font_size=18]"@);
    assert("[font_size="@ + decimal_digits(12) + "]"@ =~= "[font_size=12]"@);
    assert("[font_size="@ + decimal_digits(10) + "]"@ =~= "[font_size=10]"@);
    assert("[font_size="@ + decimal_digits(8) + "]"@ =~= "[font_size=8]"@);
}

/// Where the last fragment ends in two newlines, the output is all the
/// fragments joined, less its final character.
pub proof fn lemma_normalize_drops_one(frags: Seq<Seq<char>>)
    requires
        frags.len() > 0,
        ends_with_blank_line(frags.last()),
    ensures
        concat(normalize(frags)) == concat(frags).drop_last(),
{
    let last = frags.last();
    let init = frags.drop_last();
    assert(normalize(frags) =~= init.push(last.drop_last()));
    lemma_concat_push(init, last.drop_last());
    assert(init.push(last) =~= frags);
    lemma_concat_push(init, last);
    assert((concat(init) + last).drop_last() =~= concat(init) + last.drop_last());
}

/// Where the rendering would end in a blank line (the last fragment ends in
/// two newlines) that follows a character other than a newline, the output
/// ends in exactly one newline.
pub proof fn lemma_single_trailing_newline(events: Seq<MdEvent>)
    requires
        run(events) is Ok,
        ({
            let frags = run(events)->Ok_0.frags;
            let all = concat(frags);
            frags.len() > 0 && ends_with_blank_line(frags.last()) && (all.len() < 3 || all[all.len()
                - 3] != '\n')
        }),
    ensures
        render(events) is Ok,
        ({
            let out = render(events)->Ok_0;
            out.len() >= 1 && out[out.len() - 1] == '\n' && (out.len() < 2 || out[out.len() - 2]
                != '\n')
        }),
{
    let frags = run(events)->Ok_0.frags;
    lemma_normalize_drops_one(frags);
    let all = concat(frags);
    lemma_concat_push(frags.drop_last(), frags.last());
    assert(frags.drop_last().push(frags.last()) =~= frags);
    assert(all == concat(frags.drop_last()) + frags.last());
    assert(all.len() >= frags.last().len());
    assert(all[all.len() - 1] == frags.last()[frags.last().len() - 1]);
    assert(all[all.len() - 2] == frags.last()[frags.last().len() - 2]);
}

/// Inside a paragraph a soft break joins the two texts with one space, and a
/// hard break puts a blank line between them.
pub proof fn lemma_breaks(a: String, b: String)
    ensures
        render(
            seq![
                MdEvent::Start(MdTag::Paragraph),
                MdEvent::Text(a),
                MdEvent::SoftBreak,
                MdEvent::Text(b),
                MdEvent::End(MdTag::Paragraph),
            ],
        ) == Ok::<Seq<char>, crate::convert::EmtobeError>(a@ + " "@ + b@ + "\n"@),
        render(
            seq![
                MdEvent::Start(MdTag::Paragraph),
                MdEvent::Text(a),
                MdEvent::HardBreak,
                MdEvent::Text(b),
                MdEvent::End(MdTag::Paragraph),
            ],
        ) == Ok::<Seq<char>, crate::convert::EmtobeError>(a@ + "\n\n"@ + b@ + "\n"@),
{
    reveal_strlit("\n\n");
    reveal_strlit("\n");
    reveal_strlit(" ");
    lemma_paragraph_of_three(a, MdEvent::SoftBreak, " "@, b);
    lemma_paragraph_of_three(a, MdEvent::HardBreak, "\n\n"@, b);
}

proof fn lemma_paragraph_of_three(a: String, brk: MdEvent, sep: Seq<char>, b: String)
    requires
        brk is SoftBreak || brk is HardBreak,
        brk is SoftBreak ==> sep == " "@,
        brk is HardBreak ==> sep == "\n\n"@,
    ensures
        render(
            seq![
                MdEvent::Start(MdTag::Paragraph),
                MdEvent::Text(a),
                brk,
                MdEvent::Text(b),
                MdEvent::End(MdTag::Paragraph),
            ],
        ) == Ok::<Seq<char>, crate::convert::EmtobeError>(a@ + sep + b@ + "\n"@),
{
    reveal_strlit("\n\n");
    reveal_strlit("\n");
    let e0 = Seq::<MdEvent>::empty();
    let e1 = e0.push(MdEvent::Start(MdTag::Paragraph));
    let e2 = e1.push(MdEvent::Text(a));
    let e3 = e2.push(brk);
    let e4 = e3.push(MdEvent::Text(b));
    let e5 = e4.push(MdEvent::End(MdTag::Paragraph));
    lemma_run_push(e0, MdEvent::Start(MdTag::Paragraph));
    lemma_run_push(e1, MdEvent::Text(a));
    lemma_run_push(e2, brk);
    lemma_run_push(e3, MdEvent::Text(b));
    lemma_run_push(e4, MdEvent::End(MdTag::Paragraph));
    let frags = seq![a@, sep, b@, "\n\n"@];
    assert(run(e5)->Ok_0.frags =~= frags);
    let normal = seq![a@, sep, b@, "\n"@];
    assert(ends_with_blank_line("\n\n"@));
    assert("\n\n"@.drop_last() =~= "\n"@);
    assert(normalize(frags) =~= normal);
    lemma_concat_push(Seq::empty(), a@);
    lemma_concat_push(seq![a@], sep);
    lemma_concat_push(seq![a@, sep], b@);
    lemma_concat_push(seq![a@, sep, b@], "\n"@);
    assert(seq![a@] =~= Seq::<Seq<char>>::empty().push(a@));
    assert(seq![a@, sep] =~= seq![a@].push(sep));
    assert(seq![a@, sep, b@] =~= seq![a@, sep].push(b@));
    assert(normal =~= seq![a@, sep, b@].push("\n"@));
    assert(concat(normal) =~= a@ + sep + b@ + "\n"@);
    assert(e5 =~= seq![
        MdEvent::Start(MdTag::Paragraph),
        MdEvent::Text(a),
        brk,
        MdEvent::Text(b),
        MdEvent::End(MdTag::Paragraph),
    ]);
}

/// An inline link around a text wraps it in `[url=dest]...[/url]`, and also in
/// `[hint=title]...[/hint]` where the title is not empty.
pub proof fn lemma_link_markup(dest: String, title: String, text: String)
    ensures
        render(
            seq![
                MdEvent::Start(MdTag::Link(LinkKind::Inline, dest, title)),
                MdEvent::Text(text),
                MdEvent::End(MdTag::Link(LinkKind::Inline, dest, title)),
            ],
        ) == Ok::<Seq<char>, crate::convert::EmtobeError>(
            if title@.len() == 0 {
                "[url="@ + dest@ + "]"@ + text@ + "[/url]"@
            } else {
                "[hint="@ + title@ + "]"@ + "[url="@ + dest@ + "]"@ + text@ + "[/url][/hint]"@
            },
        ),
{
    reveal_strlit("[/url]");
    reveal_strlit("[/url][/hint]");
    let link = MdTag::Link(LinkKind::Inline, dest, title);
    let e0 = Seq::<MdEvent>::empty();
    let e1 = e0.push(MdEvent::Start(link));
    let e2 = e1.push(MdEvent::Text(text));
    let e3 = e2.push(MdEvent::End(link));
    lemma_run_push(e0, MdEvent::Start(link));
    lemma_run_push(e1, MdEvent::Text(text));
    lemma_run_push(e2, MdEvent::End(link));
    let open = open_markup(link)->Some_0;
    let close = close_markup(link)->Some_0;
    let frags = seq![open, text@, close];
    assert(run(e3)->Ok_0.frags =~= frags);
    assert(!ends_with_blank_line(close));
    assert(normalize(frags) == frags);
    lemma_concat_push(Seq::empty(), open);
    lemma_concat_push(seq![open], text@);
    lemma_concat_push(seq![open, text@], close);
    assert(seq![open] =~= Seq::<Seq<char>>::empty().push(open));
    assert(seq![open, text@] =~= seq![open].push(text@));
    assert(frags =~= seq![open, text@].push(close));
    assert(concat(frags) =~= open + text@ + close);
    assert(e3 =~= seq![MdEvent::Start(link), MdEvent::Text(text), MdEvent::End(link)]);
}

/// An emphasis, strong or strikethrough region.
pub open spec fn is_emphasis_tag(t: MdTag) -> bool {
    t is Emphasis || t is Strong || t is Strikethrough
}

/// The emphasis regions that the events open (`true`) and close (`false`),
/// in order.
pub open spec fn region_marks(events: Seq<MdEvent>) -> Seq<(bool, MdTag)>
    decreases events.len(),
{
    if events.len() == 0 {
        Seq::empty()
    } else {
        let prev = region_marks(events.drop_last());
        match events.last() {
            MdEvent::Start(t) => if is_emphasis_tag(t) { prev.push((true, t)) } else { prev },
            MdEvent::End(t) => if is_emphasis_tag(t) { prev.push((false, t)) } else { prev },
            _ => prev,
        }
    }
}

/// The markup tags that the events emit, by opening flag and name, in order.
pub open spec fn markup_tags(events: Seq<MdEvent>) -> Seq<(bool, Seq<char>)> {
    region_marks(events).map_values(|m: (bool, MdTag)| (m.0, emphasis_name(m.1)))
}

/// Every close matches the most recent open that is still unclosed, and
/// none stays open, starting from the open items on `stack`.
pub open spec fn balanced<T>(marks: Seq<(bool, T)>, stack: Seq<T>) -> bool
    decreases marks.len(),
{
    if marks.len() == 0 {
        stack.len() == 0
    } else if marks[0].0 {
        balanced(marks.drop_first(), stack.push(marks[0].1))
    } else {
        stack.len() > 0 && stack.last() == marks[0].1 && balanced(marks.drop_first(), stack.drop_last())
    }
}

proof fn lemma_balanced_names(marks: Seq<(bool, MdTag)>, stack: Seq<MdTag>)
    requires
        balanced(marks, stack),
        forall|i: int| 0 <= i < marks.len() ==> is_emphasis_tag(#[trigger] marks[i].1),
        forall|i: int| 0 <= i < stack.len() ==> is_emphasis_tag(#[trigger] stack[i]),
    ensures
        balanced(
            marks.map_values(|m: (bool, MdTag)| (m.0, emphasis_name(m.1))),
            stack.map_values(|t: MdTag| emphasis_name(t)),
        ),
    decreases marks.len(),
{
    let named = marks.map_values(|m: (bool, MdTag)| (m.0, emphasis_name(m.1)));
    let names = stack.map_values(|t: MdTag| emphasis_name(t));
    if marks.len() > 0 {
        let rest = marks.drop_first();
        assert(named.drop_first() =~= rest.map_values(|m: (bool, MdTag)| (m.0, emphasis_name(m.1))));
        assert forall|i: int| 0 <= i < rest.len() implies is_emphasis_tag(#[trigger] rest[i].1) by {
            assert(rest[i] == marks[i + 1]);
        }
        if marks[0].0 {
            let next = stack.push(marks[0].1);
            assert(is_emphasis_tag(marks[0].1));
            assert forall|i: int| 0 <= i < next.len() implies is_emphasis_tag(#[trigger] next[i]) by {
                if i < stack.len() {
                    assert(next[i] == stack[i]);
                }
            }
            lemma_balanced_names(rest, next);
            assert(next.map_values(|t: MdTag| emphasis_name(t)) =~= names.push(named[0].1));
        } else {
            let next = stack.drop_last();
            assert forall|i: int| 0 <= i < next.len() implies is_emphasis_tag(#[trigger] next[i]) by {
                assert(next[i] == stack[i]);
            }
            lemma_balanced_names(rest, next);
            assert(next.map_values(|t: MdTag| emphasis_name(t)) =~= names.drop_last());
            assert(names.last() == emphasis_name(stack.last()));
        }
    }
}

proof fn lemma_region_marks_emphasis(events: Seq<MdEvent>)
    ensures
        forall|i: int| 0 <= i < region_marks(events).len() ==> is_emphasis_tag(
            #[trigger] region_marks(events)[i].1,
        ),
    decreases events.len(),
{
    if events.len() > 0 {
        let prev = region_marks(events.drop_last());
        lemma_region_marks_emphasis(events.drop_last());
        let marks = region_marks(events);
        assert forall|i: int| 0 <= i < marks.len() implies is_emphasis_tag(#[trigger] marks[i].1) by {
            if i < prev.len() {
                match events.last() {
                    MdEvent::Start(t) => assert(marks[i] == prev[i]),
                    MdEvent::End(t) => assert(marks[i] == prev[i]),
                    _ => assert(marks[i] == prev[i]),
                }
            }
        }
    }
}

/// Where the emphasis regions of a text made of paragraphs, inline emphasis,
/// text and breaks are well nested, the conversion succeeds with the fragments
/// in event order, and the `[i]`, `[b]` and `[s]` tags that it emits, with
/// their closes, are balanced in the same way.
pub proof fn lemma_inline_tags_balanced(events: Seq<MdEvent>)
    requires
        forall|i: int| 0 <= i < events.len() ==> is_inline_event(#[trigger] events[i]),
        balanced(region_marks(events), Seq::<MdTag>::empty()),
    ensures
        run(events) == Ok::<ConvState, crate::convert::EmtobeError>(
            ConvState { frags: inline_fragments(events), table: None },
        ),
        balanced(markup_tags(events), Seq::<Seq<char>>::empty()),
{
    lemma_inline_markup_in_order(events);
    lemma_region_marks_emphasis(events);
    lemma_balanced_names(region_marks(events), Seq::empty());
    assert(Seq::<MdTag>::empty().map_values(|t: MdTag| emphasis_name(t)) =~= Seq::<Seq<char>>::empty());
}

} // verus!
