//! Markdown-to-Typst conversion. The markdown is parsed into events by
//! pulldown-cmark; the events are turned into Typst markup by a state machine,
//! and inline modifiers are substituted afterwards.

use pulldown_cmark::{CodeBlockKind, Event, HeadingLevel, Options, Parser, Tag, TagEnd};
use vstd::prelude::*;
use crate::modifiers::{ConversionContext, ResolvedModifier};
use crate::text::{
    append_chars, chars_eq, chars_of, push_repeat, push_str, repeat, replace_all, replace_chars, string_of, trim,
    trim_chars,
};
use crate::typst::{escape_into, escape_spec};
use crate::domain::MdDocsError;

verus! {

/// Heading depth, from `#` to `######`.
#[derive(Clone, Copy, Debug, PartialEq, Eq, Structural)]
pub enum HeadingDepth {
    H1,
    H2,
    H3,
    H4,
    H5,
    H6,
}

/// Kinds of markdown elements, as far as the conversion tells them apart.
#[derive(Clone, Copy, Debug, PartialEq, Eq, Structural)]
pub enum MdTag {
    Paragraph,
    Heading,
    BlockQuote,
    CodeBlock,
    HtmlBlock,
    List,
    Item,
    Emphasis,
    Strong,
    Strikethrough,
    Link,
    Image,
    Other,
}

/// A markdown parse event.
#[derive(Clone, Debug)]
pub enum MdEvent {
    /// Start of an element whose start carries nothing the conversion reads.
    Start(MdTag),
    /// Start of a heading.
    StartHeading(HeadingDepth),
    /// Start of a code block, with its language (empty when there is none).
    StartCodeBlock(String),
    /// Start of a list: `Some(first number)` for an ordered list.
    StartList(Option<u64>),
    /// Start of a link to the given destination.
    StartLink(String),
    /// Start of an image with the given source.
    StartImage(String),
    /// End of an element.
    End(MdTag),
    /// Text.
    Text(String),
    /// Inline code.
    Code(String),
    /// Raw HTML, a line of an HTML block or an HTML block of its own.
    Html(String),
    /// Inline HTML.
    InlineHtml(String),
    SoftBreak,
    HardBreak,
    Rule,
    /// Any other event (footnotes, math, task markers), which produces nothing.
    Other,
}

// ---------------------------------------------------------------------------
// Parsing with pulldown-cmark
// ---------------------------------------------------------------------------

#[verifier::external_type_specification]
#[verifier::external_body]
pub struct ExEvent<'a>(Event<'a>);

#[verifier::external_type_specification]
#[verifier::external_body]
pub struct ExTag<'a>(Tag<'a>);

#[verifier::external_type_specification]
#[verifier::external_body]
pub struct ExTagEnd(TagEnd);

#[verifier::external_type_specification]
#[verifier::external_body]
pub struct ExHeadingLevel(HeadingLevel);

/// The events that pulldown-cmark's parser produces for `markdown` with the
/// given extensions enabled, each made independent of the text it borrows.
pub uninterp spec fn cmark_parse(markdown: Seq<char>, tables: bool, strikethrough: bool) -> Seq<Event<'static>>;

/// Runs `pulldown_cmark::Parser::new_ext` on `markdown` (GFM tables and
/// strikethrough switched on as asked) and collects its events, each moved
/// into an owned event (`Event::into_static`). The events are named
/// `cmark_parse` of the arguments: the parser is deterministic.
#[verifier::external_body]
fn parse_events(markdown: &str, tables: bool, strikethrough: bool) -> (events: Vec<Event<'static>>)
    ensures
        events@ == cmark_parse(markdown@, tables, strikethrough),
{
    let mut options = Options::empty();
    options.set(Options::ENABLE_TABLES, tables);
    options.set(Options::ENABLE_STRIKETHROUGH, strikethrough);
    Parser::new_ext(markdown, options).map(|e| e.into_static()).collect()
}

/// Parser events as the conversion reads them, each by `md_event_spec`.
pub open spec fn converted_events(raw: Seq<Event<'static>>) -> Seq<MdEvent> {
    raw.map_values(|e: Event<'static>| md_event_spec(event_parts_of(e)))
}

/// The events of the conversion for `markdown`: pulldown-cmark's events, each
/// converted by `md_event_spec`.
pub open spec fn cmark_events(markdown: Seq<char>, tables: bool, strikethrough: bool) -> Seq<MdEvent> {
    converted_events(cmark_parse(markdown, tables, strikethrough))
}

/// Parses `markdown` and converts each event.
fn parse_markdown(markdown: &str, tables: bool, strikethrough: bool) -> (events: Vec<MdEvent>)
    ensures
        events@ == cmark_events(markdown@, tables, strikethrough),
{
    let mut raw = parse_events(markdown, tables, strikethrough);
    let ghost all = raw@;
    let mut out: Vec<MdEvent> = Vec::new();
    assert(all.skip(0) =~= all);
    assert(all.take(0) =~= Seq::<Event<'static>>::empty());
    assert(converted_events(all.take(0)) =~= out@);
    while raw.len() > 0
        invariant
            out@.len() + raw@.len() == all.len(),
            raw@ == all.skip(out@.len() as int),
            out@ == converted_events(all.take(out@.len() as int)),
        decreases raw@.len(),
    {
        let ghost done = out@.len() as int;
        let ghost before = raw@;
        assert(before[0] == all[done]);
        let e = raw.remove(0);
        out.push(md_event(e));
        assert(raw@ =~= all.skip(done + 1));
        assert(out@ =~= converted_events(all.take(done + 1)));
    }
    assert(all.take(all.len() as int) =~= all);
    out
}

/// A pulldown-cmark event split into its variant and fields.
pub enum EventParts<'a> {
    Start(Tag<'a>),
    End(TagEnd),
    Text(String),
    Code(String),
    Html(String),
    InlineHtml(String),
    SoftBreak,
    HardBreak,
    Rule,
    Other,
}

/// A pulldown-cmark start tag split into the fields the conversion reads.
pub enum TagParts {
    Heading(HeadingLevel),
    CodeBlock(String),
    List(Option<u64>),
    Link(String),
    Image(String),
    Plain(TagEnd),
}

/// The variant and fields of a pulldown-cmark event.
pub uninterp spec fn event_parts_of(e: Event<'_>) -> EventParts<'_>;

/// The fields the conversion reads of a pulldown-cmark start tag.
pub uninterp spec fn tag_parts_of(t: Tag<'_>) -> TagParts;

/// The element kind of a pulldown-cmark end tag.
pub uninterp spec fn end_tag_of(t: TagEnd) -> MdTag;

/// The depth of a pulldown-cmark heading level.
pub uninterp spec fn level_depth_of(l: HeadingLevel) -> HeadingDepth;

/// Tells the variants of a `pulldown_cmark::Event` apart, moving their text out.
/// The result depends on the event alone, and is named `event_parts_of` of it.
#[verifier::external_body]
fn event_parts<'a>(e: Event<'a>) -> (p: EventParts<'a>)
    ensures
        p == event_parts_of(e),
{
    match e {
        Event::Start(t) => EventParts::Start(t),
        Event::End(t) => EventParts::End(t),
        Event::Text(s) => EventParts::Text(s.to_string()),
        Event::Code(s) => EventParts::Code(s.to_string()),
        Event::Html(s) => EventParts::Html(s.to_string()),
        Event::InlineHtml(s) => EventParts::InlineHtml(s.to_string()),
        Event::SoftBreak => EventParts::SoftBreak,
        Event::HardBreak => EventParts::HardBreak,
        Event::Rule => EventParts::Rule,
        _ => EventParts::Other,
    }
}

/// Tells the variants of a `pulldown_cmark::Tag` apart; a tag with no field the
/// conversion reads becomes its `TagEnd` (`Tag::to_end`). Named
/// `tag_parts_of` of the tag.
#[verifier::external_body]
fn tag_parts(t: Tag<'_>) -> (p: TagParts)
    ensures
        p == tag_parts_of(t),
{
    match t {
        Tag::Heading { level, .. } => TagParts::Heading(level),
        Tag::CodeBlock(CodeBlockKind::Fenced(lang)) => TagParts::CodeBlock(lang.to_string()),
        Tag::CodeBlock(CodeBlockKind::Indented) => TagParts::CodeBlock(String::new()),
        Tag::List(start) => TagParts::List(start),
        Tag::Link { dest_url, .. } => TagParts::Link(dest_url.to_string()),
        Tag::Image { dest_url, .. } => TagParts::Image(dest_url.to_string()),
        other => TagParts::Plain(other.to_end()),
    }
}

/// Tells the variants of a `pulldown_cmark::TagEnd` apart. Named `end_tag_of`
/// of the tag.
#[verifier::external_body]
fn end_tag(t: TagEnd) -> (m: MdTag)
    ensures
        m == end_tag_of(t),
{
    match t {
        TagEnd::Paragraph => MdTag::Paragraph,
        TagEnd::Heading(_) => MdTag::Heading,
        TagEnd::BlockQuote(_) => MdTag::BlockQuote,
        TagEnd::CodeBlock => MdTag::CodeBlock,
        TagEnd::HtmlBlock => MdTag::HtmlBlock,
        TagEnd::List(_) => MdTag::List,
        TagEnd::Item => MdTag::Item,
        TagEnd::Emphasis => MdTag::Emphasis,
        TagEnd::Strong => MdTag::Strong,
        TagEnd::Strikethrough => MdTag::Strikethrough,
        TagEnd::Link => MdTag::Link,
        TagEnd::Image => MdTag::Image,
        _ => MdTag::Other,
    }
}

/// Tells the variants of a `pulldown_cmark::HeadingLevel` apart. Named
/// `level_depth_of` of the level.
#[verifier::external_body]
fn heading_depth(l: HeadingLevel) -> (d: HeadingDepth)
    ensures
        d == level_depth_of(l),
{
    match l {
        HeadingLevel::H1 => HeadingDepth::H1,
        HeadingLevel::H2 => HeadingDepth::H2,
        HeadingLevel::H3 => HeadingDepth::H3,
        HeadingLevel::H4 => HeadingDepth::H4,
        HeadingLevel::H5 => HeadingDepth::H5,
        HeadingLevel::H6 => HeadingDepth::H6,
    }
}

/// The event of the conversion for a pulldown-cmark event split into `p`: a
/// start tag by the fields it carries, an end tag by its kind, text, code and
/// HTML with their text, and breaks and rules as they are.
pub open spec fn md_event_spec(p: EventParts) -> MdEvent {
    match p {
        EventParts::Start(t) => match tag_parts_of(t) {
            TagParts::Heading(l) => MdEvent::StartHeading(level_depth_of(l)),
            TagParts::CodeBlock(lang) => MdEvent::StartCodeBlock(lang),
            TagParts::List(start) => MdEvent::StartList(start),
            TagParts::Link(url) => MdEvent::StartLink(url),
            TagParts::Image(url) => MdEvent::StartImage(url),
            TagParts::Plain(t) => MdEvent::Start(end_tag_of(t)),
        },
        EventParts::End(t) => MdEvent::End(end_tag_of(t)),
        EventParts::Text(s) => MdEvent::Text(s),
        EventParts::Code(s) => MdEvent::Code(s),
        EventParts::Html(s) => MdEvent::Html(s),
        EventParts::InlineHtml(s) => MdEvent::InlineHtml(s),
        EventParts::SoftBreak => MdEvent::SoftBreak,
        EventParts::HardBreak => MdEvent::HardBreak,
        EventParts::Rule => MdEvent::Rule,
        EventParts::Other => MdEvent::Other,
    }
}

/// Converts one pulldown-cmark event.
fn md_event(e: Event<'_>) -> (m: MdEvent)
    ensures
        m == md_event_spec(event_parts_of(e)),
{
    match event_parts(e) {
        EventParts::Start(t) => match tag_parts(t) {
            TagParts::Heading(l) => MdEvent::StartHeading(heading_depth(l)),
            TagParts::CodeBlock(lang) => MdEvent::StartCodeBlock(lang),
            TagParts::List(start) => MdEvent::StartList(start),
            TagParts::Link(url) => MdEvent::StartLink(url),
            TagParts::Image(url) => MdEvent::StartImage(url),
            TagParts::Plain(t) => MdEvent::Start(end_tag(t)),
        },
        EventParts::End(t) => MdEvent::End(end_tag(t)),
        EventParts::Text(s) => MdEvent::Text(s),
        EventParts::Code(s) => MdEvent::Code(s),
        EventParts::Html(s) => MdEvent::Html(s),
        EventParts::InlineHtml(s) => MdEvent::InlineHtml(s),
        EventParts::SoftBreak => MdEvent::SoftBreak,
        EventParts::HardBreak => MdEvent::HardBreak,
        EventParts::Rule => MdEvent::Rule,
        EventParts::Other => MdEvent::Other,
    }
}

// ---------------------------------------------------------------------------
// The conversion, stated
// ---------------------------------------------------------------------------

/// The number of `=` of a heading.
pub open spec fn depth_of(d: HeadingDepth) -> nat {
    match d {
        HeadingDepth::H1 => 1,
        HeadingDepth::H2 => 2,
        HeadingDepth::H3 => 3,
        HeadingDepth::H4 => 4,
        HeadingDepth::H5 => 5,
        HeadingDepth::H6 => 6,
    }
}

/// The number of `=` of a heading (1 to 6).
pub fn heading_level_to_usize(level: HeadingDepth) -> (n: usize)
    ensures
        n == depth_of(level),
{
    match level {
        HeadingDepth::H1 => 1,
        HeadingDepth::H2 => 2,
        HeadingDepth::H3 => 3,
        HeadingDepth::H4 => 4,
        HeadingDepth::H5 => 5,
        HeadingDepth::H6 => 6,
    }
}

/// `c` lowercases to `t` (for the characters of an HTML `<br>` tag: only `B`
/// and `R` lowercase to another of them).
pub open spec fn lowers_to(c: char, t: char) -> bool {
    c == t || (t == 'b' && c == 'B') || (t == 'r' && c == 'R')
}

/// `s` lowercased equals `t`.
pub open spec fn lower_eq(s: Seq<char>, t: Seq<char>) -> bool {
    s.len() == t.len() && forall|i: int| 0 <= i < s.len() ==> lowers_to(s[i], t[i])
}

/// `s` is a line break tag: `<br>`, `<br/>` or `<br />` in any case.
pub open spec fn is_br(s: Seq<char>) -> bool {
    lower_eq(s, "<br>"@) || lower_eq(s, "<br/>"@) || lower_eq(s, "<br />"@)
}

/// The output for a piece of HTML (already trimmed) that stands as a block:
/// a block modifier's output, the marker itself when the modifier keeps it,
/// vertical space for a `<br>`, and nothing otherwise.
pub open spec fn html_block_output(html: Seq<char>, blocks: Map<Seq<char>, Option<String>>) -> Seq<char> {
    if blocks.contains_key(html) {
        match blocks[html] {
            Some(r) => if r@.len() > 0 {
                r@ + "\n\n"@
            } else {
                Seq::empty()
            },
            None => html + "\n"@,
        }
    } else if is_br(html) {
        "#v(1em)\n"@
    } else {
        Seq::empty()
    }
}

/// The state of the conversion.
pub ghost struct ConvState {
    /// Typst markup so far.
    pub output: Seq<char>,
    /// The open lists, innermost last: `Some` for an ordered one.
    pub list_stack: Seq<Option<u64>>,
    /// Inside a code block.
    pub in_code_block: bool,
    /// The HTML of the open HTML block.
    pub html_buf: Option<Seq<char>>,
}

/// The state before the first event.
pub open spec fn initial_state() -> ConvState {
    ConvState { output: Seq::empty(), list_stack: Seq::empty(), in_code_block: false, html_buf: None }
}

/// The prefix of a list item: two spaces per enclosing list, then `+ ` in an
/// ordered list and `- ` otherwise.
pub open spec fn item_prefix(stack: Seq<Option<u64>>) -> Seq<char> {
    let indent: nat = if stack.len() > 0 { (stack.len() - 1) as nat } else { 0 };
    repeat("  "@, indent) + if stack.len() > 0 && stack.last() is Some {
        "+ "@
    } else {
        "- "@
    }
}

/// The state with `s` appended to the output.
pub open spec fn emit(st: ConvState, s: Seq<char>) -> ConvState {
    ConvState { output: st.output + s, ..st }
}

/// The conversion of one event.
pub open spec fn step(st: ConvState, e: MdEvent, blocks: Map<Seq<char>, Option<String>>) -> ConvState {
    match e {
        MdEvent::StartHeading(d) => emit(st, repeat("="@, depth_of(d)) + " "@),
        MdEvent::StartCodeBlock(lang) => ConvState {
            in_code_block: true,
            ..emit(st, "```"@ + lang@ + "\n"@)
        },
        MdEvent::StartList(start) => ConvState { list_stack: st.list_stack.push(start), ..st },
        MdEvent::StartLink(url) => emit(st, "#link(\""@ + url@ + "\")["@),
        MdEvent::StartImage(url) => emit(st, "#image(\""@ + url@ + "\")"@),
        MdEvent::Start(t) => match t {
            MdTag::BlockQuote => emit(st, "#quote["@),
            MdTag::Item => emit(st, item_prefix(st.list_stack)),
            MdTag::HtmlBlock => ConvState { html_buf: Some(Seq::empty()), ..st },
            MdTag::Emphasis => emit(st, "_"@),
            MdTag::Strong => emit(st, "*"@),
            MdTag::Strikethrough => emit(st, "#strike["@),
            _ => st,
        },
        MdEvent::End(t) => match t {
            MdTag::Heading => emit(st, "\n\n"@),
            MdTag::Paragraph => emit(st, "\n\n"@),
            MdTag::BlockQuote => emit(st, "]\n\n"@),
            MdTag::CodeBlock => ConvState { in_code_block: false, ..emit(st, "```\n\n"@) },
            MdTag::List => ConvState {
                list_stack: if st.list_stack.len() > 0 { st.list_stack.drop_last() } else { st.list_stack },
                ..emit(st, "\n"@)
            },
            MdTag::Item => emit(st, "\n"@),
            MdTag::HtmlBlock => match st.html_buf {
                Some(buf) => ConvState { html_buf: None, ..emit(st, html_block_output(trim(buf), blocks)) },
                None => st,
            },
            MdTag::Emphasis => emit(st, "_"@),
            MdTag::Strong => emit(st, "*"@),
            MdTag::Strikethrough => emit(st, "]"@),
            MdTag::Link => emit(st, "]"@),
            _ => st,
        },
        MdEvent::Text(t) => match st.html_buf {
            Some(buf) => ConvState { html_buf: Some(buf + t@), ..st },
            None => if st.in_code_block {
                emit(st, t@)
            } else {
                emit(st, escape_spec(t@))
            },
        },
        MdEvent::Code(t) => emit(st, "`"@ + t@ + "`"@),
        MdEvent::Html(h) => match st.html_buf {
            Some(buf) => ConvState { html_buf: Some(buf + h@), ..st },
            None => emit(st, html_block_output(trim(h@), blocks)),
        },
        MdEvent::InlineHtml(h) => if is_br(trim(h@)) {
            emit(st, "#v(1em)"@)
        } else {
            st
        },
        MdEvent::SoftBreak => emit(st, "\\\n"@),
        MdEvent::HardBreak => emit(st, "#v(1em)\n"@),
        MdEvent::Rule => emit(st, "#line(length: 100%)\n\n"@),
        MdEvent::Other => st,
    }
}

/// The state after converting `events` in order.
pub open spec fn run(events: Seq<MdEvent>, blocks: Map<Seq<char>, Option<String>>) -> ConvState
    decreases events.len(),
{
    if events.len() == 0 {
        initial_state()
    } else {
        step(run(events.drop_last(), blocks), events.last(), blocks)
    }
}

/// The inline-modifier substitution for one modifier: its marker, and the marker
/// as escaped in text, become the effective output; a kept marker that was
/// escaped is restored.
pub open spec fn substitute(s: Seq<char>, m: ResolvedModifier) -> Seq<char> {
    let escaped = escape_spec(m.marker@);
    match m.effective_typst {
        None => if escaped != m.marker@ {
            replace_all(s, escaped, m.marker@)
        } else {
            s
        },
        Some(r) => {
            let once = replace_all(s, m.marker@, r@);
            if escaped != m.marker@ {
                replace_all(once, escaped, r@)
            } else {
                once
            }
        },
    }
}

/// The substitution of every inline modifier, in order.
pub open spec fn substitute_all(s: Seq<char>, ms: Seq<ResolvedModifier>) -> Seq<char>
    decreases ms.len(),
{
    if ms.len() == 0 {
        s
    } else {
        substitute(substitute_all(s, ms.drop_last()), ms.last())
    }
}

/// The Typst markup for `markdown` parsed into `events`.
pub open spec fn typst_for(events: Seq<MdEvent>, ctx: ConversionContext) -> Seq<char> {
    substitute_all(run(events, ctx.block_modifiers@).output, ctx.inline_modifiers@)
}

// ---------------------------------------------------------------------------
// Laws of the conversion
// ---------------------------------------------------------------------------

/// The number of lists open after `events`: each list start opens one, each
/// list end closes the innermost.
pub open spec fn list_depth(events: Seq<MdEvent>) -> nat
    decreases events.len(),
{
    if events.len() == 0 {
        0
    } else {
        let d = list_depth(events.drop_last());
        match events.last() {
            MdEvent::StartList(_) => d + 1,
            MdEvent::End(MdTag::List) => if d > 0 { (d - 1) as nat } else { 0 },
            _ => d,
        }
    }
}

/// Whether an HTML block is open after `events`.
pub open spec fn in_html_block(events: Seq<MdEvent>) -> bool
    decreases events.len(),
{
    if events.len() == 0 {
        false
    } else {
        match events.last() {
            MdEvent::Start(MdTag::HtmlBlock) => true,
            MdEvent::End(MdTag::HtmlBlock) => false,
            _ => in_html_block(events.drop_last()),
        }
    }
}

/// The texts of `events` one after the other.
pub open spec fn texts_of(events: Seq<MdEvent>) -> Seq<char>
    decreases events.len(),
{
    if events.len() == 0 {
        Seq::empty()
    } else {
        texts_of(events.drop_last()) + match events.last() {
            MdEvent::Text(t) => t@,
            _ => Seq::empty(),
        }
    }
}

/// The conversion keeps count of the open lists and of an open HTML block.
proof fn lemma_run_tracks(events: Seq<MdEvent>, blocks: Map<Seq<char>, Option<String>>)
    ensures
        run(events, blocks).list_stack.len() == list_depth(events),
        (run(events, blocks).html_buf is Some) == in_html_block(events),
    decreases events.len(),
{
    if events.len() > 0 {
        lemma_run_tracks(events.drop_last(), blocks);
    }
}

/// `n` double spaces are `2 * n` spaces.
proof fn lemma_double_spaces(n: nat)
    ensures
        repeat("  "@, n) == repeat(" "@, 2 * n),
    decreases n,
{
    reveal_strlit("  ");
    reveal_strlit(" ");
    if n > 0 {
        lemma_double_spaces((n - 1) as nat);
        assert(repeat(" "@, 2 * n) == repeat(" "@, (2 * n - 1) as nat) + " "@);
        assert(repeat(" "@, (2 * n - 1) as nat) == repeat(" "@, (2 * n - 2) as nat) + " "@);
        assert(((2 * n - 2) as nat) == 2 * ((n - 1) as nat));
        assert(repeat(" "@, (2 * n - 2) as nat) + " "@ + " "@ =~= repeat(" "@, (2 * n - 2) as nat) + "  "@);
    }
}

/// A list item inside `k` open lists starts with `2 * (k - 1)` spaces and
/// then its marker, `+ ` or `- `, so that Typst nests it `k - 1` levels
/// deep; an item outside any list starts with `- ` alone.
pub proof fn lemma_item_indent(events: Seq<MdEvent>, blocks: Map<Seq<char>, Option<String>>)
    ensures
        ({
            let before = run(events, blocks).output
                + repeat(" "@, if list_depth(events) > 0 { 2 * ((list_depth(events) - 1) as nat) } else { 0 });
            let after = run(events.push(MdEvent::Start(MdTag::Item)), blocks).output;
            after == before + "+ "@ || after == before + "- "@
        }),
{
    lemma_run_tracks(events, blocks);
    let st = run(events, blocks);
    let k = list_depth(events);
    let indent: nat = if k > 0 { (k - 1) as nat } else { 0 };
    lemma_double_spaces(indent);
    assert(events.push(MdEvent::Start(MdTag::Item)).drop_last() =~= events);
    let marker = if st.list_stack.len() > 0 && st.list_stack.last() is Some { "+ "@ } else { "- "@ };
    assert(run(events.push(MdEvent::Start(MdTag::Item)), blocks).output == st.output + (repeat(" "@, 2 * indent) + marker));
    assert(st.output + (repeat(" "@, 2 * indent) + marker) =~= st.output + repeat(" "@, 2 * indent) + marker);
}

/// Text inside a code block is written as it is, not escaped: a code block
/// with language `lang` whose content is the texts `body` becomes the fence
/// with the language, the texts one after the other, and the closing fence.
pub proof fn lemma_code_block_verbatim(
    events: Seq<MdEvent>,
    lang: String,
    body: Seq<MdEvent>,
    blocks: Map<Seq<char>, Option<String>>,
)
    requires
        !in_html_block(events),
        forall|i: int| 0 <= i < body.len() ==> #[trigger] body[i] is Text,
    ensures
        run(events + seq![MdEvent::StartCodeBlock(lang)] + body + seq![MdEvent::End(MdTag::CodeBlock)], blocks).output
            == run(events, blocks).output + "```"@ + lang@ + "\n"@ + texts_of(body) + "```\n\n"@,
{
    let open = events + seq![MdEvent::StartCodeBlock(lang)];
    lemma_run_tracks(events, blocks);
    assert(open.drop_last() =~= events);
    let header = run(events, blocks).output + "```"@ + lang@ + "\n"@;
    assert(open.last() == MdEvent::StartCodeBlock(lang));
    assert(run(events, blocks).output + ("```"@ + lang@ + "\n"@) =~= header);
    lemma_code_block_texts(open, body, header, blocks);
    let all = open + body + seq![MdEvent::End(MdTag::CodeBlock)];
    assert(all.drop_last() =~= open + body);
    assert(run(all, blocks).output == header + texts_of(body) + "```\n\n"@);
}

proof fn lemma_code_block_texts(
    open: Seq<MdEvent>,
    body: Seq<MdEvent>,
    header: Seq<char>,
    blocks: Map<Seq<char>, Option<String>>,
)
    requires
        run(open, blocks).output == header,
        run(open, blocks).in_code_block,
        run(open, blocks).html_buf is None,
        forall|i: int| 0 <= i < body.len() ==> #[trigger] body[i] is Text,
    ensures
        run(open + body, blocks).output == header + texts_of(body),
        run(open + body, blocks).in_code_block,
        run(open + body, blocks).html_buf is None,
    decreases body.len(),
{
    if body.len() == 0 {
        assert(open + body =~= open);
        assert(header + texts_of(body) =~= header);
    } else {
        let prev = body.drop_last();
        assert forall|i: int| 0 <= i < prev.len() implies #[trigger] prev[i] is Text by {
            assert(prev[i] == body[i]);
        }
        lemma_code_block_texts(open, prev, header, blocks);
        assert((open + body).drop_last() =~= open + prev);
        assert((open + body).last() == body.last());
        assert(body[body.len() - 1] is Text);
        assert(header + texts_of(body) =~= header + texts_of(prev) + match body.last() {
            MdEvent::Text(t) => t@,
            _ => Seq::<char>::empty(),
        });
    }
}

// ---------------------------------------------------------------------------
// The conversion, executed
// ---------------------------------------------------------------------------

struct Converter {
    output: Vec<char>,
    list_stack: Vec<Option<u64>>,
    in_code_block: bool,
    html_buf: Option<Vec<char>>,
}

impl Converter {
    spec fn state(&self) -> ConvState {
        ConvState {
            output: self.output@,
            list_stack: self.list_stack@,
            in_code_block: self.in_code_block,
            html_buf: match self.html_buf {
                Some(b) => Some(b@),
                None => None,
            },
        }
    }
}

/// Whether `s` lowercased equals `t`.
fn lower_eq_chars(s: &[char], t: &[char]) -> (b: bool)
    ensures
        b == lower_eq(s@, t@),
{
    if s.len() != t.len() {
        return false;
    }
    let mut i: usize = 0;
    while i < s.len()
        invariant
            s.len() == t.len(),
            i <= s.len(),
            forall|j: int| 0 <= j < i ==> lowers_to(s@[j], t@[j]),
        decreases s.len() - i,
    {
        let c = s[i];
        let d = t[i];
        if !(c == d || (d == 'b' && c == 'B') || (d == 'r' && c == 'R')) {
            return false;
        }
        i = i + 1;
    }
    true
}

/// Whether `s` is a `<br>` tag.
fn is_br_chars(s: &[char]) -> (b: bool)
    ensures
        b == is_br(s@),
{
    let a = chars_of("<br>");
    let b = chars_of("<br/>");
    let c = chars_of("<br />");
    lower_eq_chars(s, a.as_slice()) || lower_eq_chars(s, b.as_slice()) || lower_eq_chars(s, c.as_slice())
}

/// Appends the output for a trimmed piece of block HTML.
fn emit_html_block(out: &mut Vec<char>, html: &[char], ctx: &ConversionContext)
    ensures
        final(out)@ == old(out)@ + html_block_output(html@, ctx.block_modifiers@),
{
    let key = string_of(html);
    match ctx.block_modifiers.get(key.as_str()) {
        Some(effective) => match effective {
            Some(replacement) => {
                let r = chars_of(replacement.as_str());
                if r.len() > 0 {
                    append_chars(out, r.as_slice());
                    push_str(out, "\n\n");
                }
            },
            None => {
                append_chars(out, html);
                push_str(out, "\n");
            },
        },
        None => {
            if is_br_chars(html) {
                push_str(out, "#v(1em)\n");
            }
        },
    }
}

impl Converter {
    fn apply(&mut self, e: &MdEvent, ctx: &ConversionContext)
        ensures
            final(self).state() == step(old(self).state(), *e, ctx.block_modifiers@),
    {
        let ghost st = self.state();
        match e {
            MdEvent::StartHeading(d) => {
                let n = heading_level_to_usize(*d);
                push_repeat(&mut self.output, "=", n);
                push_str(&mut self.output, " ");
                assert(self.output@ =~= st.output + (repeat("="@, depth_of(*d)) + " "@));
            },
            MdEvent::StartCodeBlock(lang) => {
                push_str(&mut self.output, "```");
                push_str(&mut self.output, lang.as_str());
                push_str(&mut self.output, "\n");
                self.in_code_block = true;
                assert(self.output@ =~= st.output + ("```"@ + lang@ + "\n"@));
            },
            MdEvent::StartList(start) => {
                self.list_stack.push(*start);
            },
            MdEvent::StartLink(url) => {
                push_str(&mut self.output, "#link(\"");
                push_str(&mut self.output, url.as_str());
                push_str(&mut self.output, "\")[");
                assert(self.output@ =~= st.output + ("#link(\""@ + url@ + "\")["@));
            },
            MdEvent::StartImage(url) => {
                push_str(&mut self.output, "#image(\"");
                push_str(&mut self.output, url.as_str());
                push_str(&mut self.output, "\")");
                assert(self.output@ =~= st.output + ("#image(\""@ + url@ + "\")"@));
            },
            MdEvent::Start(t) => match t {
                MdTag::BlockQuote => push_str(&mut self.output, "#quote["),
                MdTag::Item => {
                    let depth = self.list_stack.len();
                    let indent: usize = if depth > 0 { depth - 1 } else { 0 };
                    push_repeat(&mut self.output, "  ", indent);
                    let ordered = depth > 0 && self.list_stack[depth - 1].is_some();
                    if ordered {
                        push_str(&mut self.output, "+ ");
                    } else {
                        push_str(&mut self.output, "- ");
                    }
                    assert(self.output@ =~= st.output + item_prefix(st.list_stack));
                },
                MdTag::HtmlBlock => {
                    self.html_buf = Some(Vec::new());
                },
                MdTag::Emphasis => push_str(&mut self.output, "_"),
                MdTag::Strong => push_str(&mut self.output, "*"),
                MdTag::Strikethrough => push_str(&mut self.output, "#strike["),
                _ => {},
            },
            MdEvent::End(t) => match t {
                MdTag::Heading => push_str(&mut self.output, "\n\n"),
                MdTag::Paragraph => push_str(&mut self.output, "\n\n"),
                MdTag::BlockQuote => push_str(&mut self.output, "]\n\n"),
                MdTag::CodeBlock => {
                    self.in_code_block = false;
                    push_str(&mut self.output, "```\n\n");
                },
                MdTag::List => {
                    self.list_stack.pop();
                    push_str(&mut self.output, "\n");
                },
                MdTag::Item => push_str(&mut self.output, "\n"),
                MdTag::HtmlBlock => {
                    let buf = self.html_buf.take();
                    match buf {
                        Some(b) => {
                            let trimmed = trim_chars(b.as_slice());
                            emit_html_block(&mut self.output, trimmed.as_slice(), ctx);
                        },
                        None => {},
                    }
                },
                MdTag::Emphasis => push_str(&mut self.output, "_"),
                MdTag::Strong => push_str(&mut self.output, "*"),
                MdTag::Strikethrough => push_str(&mut self.output, "]"),
                MdTag::Link => push_str(&mut self.output, "]"),
                _ => {},
            },
            MdEvent::Text(t) => {
                let cs = chars_of(t.as_str());
                match &mut self.html_buf {
                    Some(buf) => append_chars(buf, cs.as_slice()),
                    None => {
                        if self.in_code_block {
                            append_chars(&mut self.output, cs.as_slice());
                        } else {
                            escape_into(&mut self.output, cs.as_slice());
                        }
                    },
                }
            },
            MdEvent::Code(t) => {
                push_str(&mut self.output, "`");
                push_str(&mut self.output, t.as_str());
                push_str(&mut self.output, "`");
                assert(self.output@ =~= st.output + ("`"@ + t@ + "`"@));
            },
            MdEvent::Html(h) => {
                let cs = chars_of(h.as_str());
                match &mut self.html_buf {
                    Some(buf) => append_chars(buf, cs.as_slice()),
                    None => {
                        let trimmed = trim_chars(cs.as_slice());
                        emit_html_block(&mut self.output, trimmed.as_slice(), ctx);
                    },
                }
            },
            MdEvent::InlineHtml(h) => {
                let cs = chars_of(h.as_str());
                let trimmed = trim_chars(cs.as_slice());
                if is_br_chars(trimmed.as_slice()) {
                    push_str(&mut self.output, "#v(1em)");
                }
            },
            MdEvent::SoftBreak => push_str(&mut self.output, "\\\n"),
            MdEvent::HardBreak => push_str(&mut self.output, "#v(1em)\n"),
            MdEvent::Rule => push_str(&mut self.output, "#line(length: 100%)\n\n"),
            MdEvent::Other => {},
        }
    }
}

/// Converts parse events to Typst markup (before inline modifiers are applied).
pub fn events_to_typst(events: &[MdEvent], context: &ConversionContext) -> (typst: String)
    ensures
        typst@ == run(events@, context.block_modifiers@).output,
{
    let mut conv = Converter {
        output: Vec::new(),
        list_stack: Vec::new(),
        in_code_block: false,
        html_buf: None,
    };
    let mut i: usize = 0;
    assert(events@.take(0) =~= Seq::<MdEvent>::empty());
    assert(conv.state() =~= initial_state());
    while i < events.len()
        invariant
            i <= events.len(),
            conv.state() == run(events@.take(i as int), context.block_modifiers@),
        decreases events.len() - i,
    {
        conv.apply(&events[i], context);
        assert(events@.take(i + 1).drop_last() =~= events@.take(i as int));
        i = i + 1;
    }
    assert(events@.take(events.len() as int) =~= events@);
    string_of(conv.output.as_slice())
}

/// Applies one inline modifier's substitution.
fn substitute_chars(s: Vec<char>, m: &ResolvedModifier) -> (out: Vec<char>)
    ensures
        out@ == substitute(s@, *m),
{
    let marker = chars_of(m.marker.as_str());
    let mut escaped: Vec<char> = Vec::new();
    escape_into(&mut escaped, marker.as_slice());
    assert(escaped@ =~= escape_spec(m.marker@));
    let differs = !chars_eq(escaped.as_slice(), marker.as_slice());
    match &m.effective_typst {
        None => {
            if differs {
                replace_chars(s.as_slice(), escaped.as_slice(), marker.as_slice())
            } else {
                s
            }
        },
        Some(r) => {
            let rc = chars_of(r.as_str());
            let once = replace_chars(s.as_slice(), marker.as_slice(), rc.as_slice());
            if differs {
                replace_chars(once.as_slice(), escaped.as_slice(), rc.as_slice())
            } else {
                once
            }
        },
    }
}

/// Substitutes every inline modifier in turn: its marker, and its marker as
/// escaped by the conversion, become its effective output.
pub fn postprocess_inline_modifiers(typst: &str, context: &ConversionContext) -> (res: String)
    ensures
        res@ == substitute_all(typst@, context.inline_modifiers@),
{
    let mut result = chars_of(typst);
    let ms = &context.inline_modifiers;
    let mut i: usize = 0;
    assert(ms@.take(0) =~= Seq::<ResolvedModifier>::empty());
    while i < ms.len()
        invariant
            i <= ms.len(),
            result@ == substitute_all(typst@, ms@.take(i as int)),
        decreases ms.len() - i,
    {
        result = substitute_chars(result, &ms[i]);
        assert(ms@.take(i + 1).drop_last() =~= ms@.take(i as int));
        i = i + 1;
    }
    assert(ms@.take(ms.len() as int) =~= ms@);
    string_of(result.as_slice())
}

/// Converts markdown to Typst markup: parses it (GFM tables and strikethrough
/// on), converts the events, then substitutes the inline modifiers. It does
/// not fail.
pub fn markdown_to_typst(markdown: &str, context: &ConversionContext) -> (res: Result<String, MdDocsError>)
    ensures
        res matches Ok(t) && t@ == typst_for(cmark_events(markdown@, true, true), *context),
{
    let events = parse_markdown(markdown, true, true);
    let raw = events_to_typst(events.as_slice(), context);
    Ok(postprocess_inline_modifiers(raw.as_str(), context))
}

} // verus!
