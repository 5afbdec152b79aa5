//! Terminal output: messages with a level, and aligned tables of templates
//! and brands. Colors come from the `colored` crate, which leaves text plain
//! when the terminal or the environment turns colors off.

use colored::Colorize;
use vstd::prelude::*;
use vstd::seq_lib::lemma_concat_associative;
use vstd::utf8::encode_utf8;
use crate::text::{contains, is_match_at, push_repeat, push_str, repeat, replace_all, replace_from, string_of};

verus! {

/// The escape sequence that ends a colored span.
pub open spec fn reset_code() -> Seq<char> {
    "\x1B[0m"@
}

/// `text` as colored writes it inside a span of style `code`: after each reset
/// sequence in `text` the style is set again, so that it holds to the end.
pub open spec fn painted_body(text: Seq<char>, code: Seq<char>) -> Seq<char> {
    replace_all(text, reset_code(), reset_code() + code)
}

/// `s` shows `text` in the style whose escape sequence is `code`: either as
/// it is (colours off), or as its painted body after `code` and before the
/// reset sequence.
pub open spec fn is_painting(s: Seq<char>, text: Seq<char>, code: Seq<char>) -> bool {
    s == text || s == code + painted_body(text, code) + reset_code()
}

/// Text without a reset sequence is its own painted body.
pub proof fn lemma_plain_body(text: Seq<char>, code: Seq<char>)
    requires
        !contains(text, reset_code()),
    ensures
        painted_body(text, code) == text,
{
    reveal_strlit("\x1B[0m");
    lemma_replace_without_match(text, reset_code(), reset_code() + code, 0);
    assert(text.skip(0) =~= text);
}

proof fn lemma_replace_without_match(s: Seq<char>, p: Seq<char>, r: Seq<char>, start: int)
    requires
        p.len() > 0,
        0 <= start <= s.len(),
        !contains(s, p),
    ensures
        replace_from(s, p, r, start) == s.skip(start),
    decreases s.len() - start,
{
    if start < s.len() {
        assert(!is_match_at(s, p, start));
        lemma_replace_without_match(s, p, r, start + 1);
        assert(seq![s[start]] + s.skip(start + 1) =~= s.skip(start));
    } else {
        assert(s.skip(start) =~= Seq::<char>::empty());
    }
}

/// The escape sequence of bold text.
pub open spec fn bold_code() -> Seq<char> {
    "\x1B[1m"@
}

/// The escape sequence of dimmed text.
pub open spec fn dimmed_code() -> Seq<char> {
    "\x1B[2m"@
}

/// The escape sequence of cyan text.
pub open spec fn cyan_code() -> Seq<char> {
    "\x1B[36m"@
}

/// The escape sequence of bold green text.
pub open spec fn green_bold_code() -> Seq<char> {
    "\x1B[1;32m"@
}

/// The escape sequence of bold yellow text.
pub open spec fn yellow_bold_code() -> Seq<char> {
    "\x1B[1;33m"@
}

/// The escape sequence of bold red text.
pub open spec fn red_bold_code() -> Seq<char> {
    "\x1B[1;31m"@
}

/// Text without an escape character holds no reset sequence.
pub proof fn lemma_no_reset(s: Seq<char>)
    requires
        forall|i: int| 0 <= i < s.len() ==> s[i] != '\x1B',
    ensures
        !contains(s, reset_code()),
{
    reveal_strlit("\x1B[0m");
    assert forall|i: int| !#[trigger] crate::text::is_match_at(s, reset_code(), i) by {
        if crate::text::is_match_at(s, reset_code(), i) {
            assert(s.subrange(i, i + 4)[0] == s[i]);
        }
    }
}

/// `text` in bold (`Colorize::bold`, displayed). Plain when colors are off.
#[verifier::external_body]
pub(crate) fn paint_bold(text: &str) -> (s: String)
    ensures
        is_painting(s@, text@, bold_code()),
{
    text.bold().to_string()
}

/// `text` dimmed (`Colorize::dimmed`, displayed). Plain when colors are off.
#[verifier::external_body]
pub(crate) fn paint_dimmed(text: &str) -> (s: String)
    ensures
        is_painting(s@, text@, dimmed_code()),
{
    text.dimmed().to_string()
}

/// `text` in cyan (`Colorize::cyan`, displayed). Plain when colors are off.
#[verifier::external_body]
pub(crate) fn paint_cyan(text: &str) -> (s: String)
    ensures
        is_painting(s@, text@, cyan_code()),
{
    text.cyan().to_string()
}

/// `text` in bold green (`Colorize::green` then `bold`, displayed).
#[verifier::external_body]
fn paint_green_bold(text: &str) -> (s: String)
    ensures
        is_painting(s@, text@, green_bold_code()),
{
    text.green().bold().to_string()
}

/// `text` in bold yellow (`Colorize::yellow` then `bold`, displayed).
#[verifier::external_body]
fn paint_yellow_bold(text: &str) -> (s: String)
    ensures
        is_painting(s@, text@, yellow_bold_code()),
{
    text.yellow().bold().to_string()
}

/// `text` in bold red (`Colorize::red` then `bold`, displayed).
#[verifier::external_body]
fn paint_red_bold(text: &str) -> (s: String)
    ensures
        is_painting(s@, text@, red_bold_code()),
{
    text.red().bold().to_string()
}

/// A message for the terminal, with its level.
#[derive(Clone, Debug)]
pub enum CliMessage {
    Success(String),
    Info(String),
    Log(String),
    Warning(String),
    Error(String),
    Plain(String),
}

/// Where a message goes.
#[derive(Clone, Copy, Debug, PartialEq, Eq, Structural)]
pub enum Destination {
    Stdout,
    Stderr,
    /// Not shown (a log message when not verbose).
    Hidden,
}

/// The text of a message.
pub open spec fn message_text(m: CliMessage) -> Seq<char> {
    match m {
        CliMessage::Success(s) => s@,
        CliMessage::Info(s) => s@,
        CliMessage::Log(s) => s@,
        CliMessage::Warning(s) => s@,
        CliMessage::Error(s) => s@,
        CliMessage::Plain(s) => s@,
    }
}

/// The log level of a message.
pub open spec fn level_text(m: CliMessage) -> Seq<char> {
    match m {
        CliMessage::Success(_) => "SUCCESS"@,
        CliMessage::Info(_) => "INFO"@,
        CliMessage::Log(_) => "DEBUG"@,
        CliMessage::Warning(_) => "WARN"@,
        CliMessage::Error(_) => "ERROR"@,
        CliMessage::Plain(_) => "INFO"@,
    }
}

/// How a message is formatted, given how its prefix or text was painted.
pub open spec fn formatted_as(m: CliMessage, s: Seq<char>) -> bool {
    match m {
        CliMessage::Success(t) => exists|q: Seq<char>| is_painting(q, "\u{2713}"@, green_bold_code()) && s == q + " "@ + t@,
        CliMessage::Info(t) => is_painting(s, t@, cyan_code()),
        CliMessage::Log(t) => is_painting(s, t@, dimmed_code()),
        CliMessage::Warning(t) => exists|q: Seq<char>| is_painting(q, "warning:"@, yellow_bold_code()) && s == q + " "@ + t@,
        CliMessage::Error(t) => exists|q: Seq<char>| is_painting(q, "error:"@, red_bold_code()) && s == q + " "@ + t@,
        CliMessage::Plain(t) => s == t@,
    }
}

/// `q`, a space, then `t`.
fn spaced(q: String, t: &str) -> (s: String)
    ensures
        s@ == q@ + " "@ + t@,
{
    let mut s = q;
    s.append(" ");
    s.append(t);
    s
}

impl CliMessage {
    /// The message for the terminal: a green check mark before a success, the
    /// text in cyan for information, dimmed for a log entry, `warning:` in
    /// yellow and `error:` in red before those, and plain text as it is.
    pub fn formatted(&self) -> (s: String)
        ensures
            formatted_as(*self, s@),
    {
        match self {
            CliMessage::Success(t) => spaced(paint_green_bold("\u{2713}"), t.as_str()),
            CliMessage::Info(t) => paint_cyan(t.as_str()),
            CliMessage::Log(t) => paint_dimmed(t.as_str()),
            CliMessage::Warning(t) => spaced(paint_yellow_bold("warning:"), t.as_str()),
            CliMessage::Error(t) => spaced(paint_red_bold("error:"), t.as_str()),
            CliMessage::Plain(t) => t.clone(),
        }
    }

    /// The message's text.
    pub fn text(&self) -> (t: &String)
        ensures
            t@ == message_text(*self),
    {
        match self {
            CliMessage::Success(s) => s,
            CliMessage::Info(s) => s,
            CliMessage::Log(s) => s,
            CliMessage::Warning(s) => s,
            CliMessage::Error(s) => s,
            CliMessage::Plain(s) => s,
        }
    }

    /// The level under which the message is logged.
    pub fn level(&self) -> (l: &'static str)
        ensures
            l@ == level_text(*self),
    {
        match self {
            CliMessage::Success(_) => "SUCCESS",
            CliMessage::Info(_) => "INFO",
            CliMessage::Log(_) => "DEBUG",
            CliMessage::Warning(_) => "WARN",
            CliMessage::Error(_) => "ERROR",
            CliMessage::Plain(_) => "INFO",
        }
    }

    /// Where the message is shown: warnings and errors on stderr, log messages
    /// only when verbose, everything else on stdout.
    pub fn destination(&self, verbose: bool) -> (d: Destination)
        ensures
            d == match *self {
                CliMessage::Log(_) => if verbose { Destination::Stdout } else { Destination::Hidden },
                CliMessage::Warning(_) | CliMessage::Error(_) => Destination::Stderr,
                _ => Destination::Stdout,
            },
    {
        match self {
            CliMessage::Log(_) => if verbose { Destination::Stdout } else { Destination::Hidden },
            CliMessage::Warning(_) | CliMessage::Error(_) => Destination::Stderr,
            _ => Destination::Stdout,
        }
    }
}


// ---------------------------------------------------------------------------
// Tables
// ---------------------------------------------------------------------------

/// A row of a template or brand listing.
pub struct TableRow<'a> {
    pub id: &'a str,
    pub name: &'a str,
    pub description: Option<&'a str>,
    pub source: String,
}

/// Spaces after each column.
pub const TABLE_COL_PAD: usize = 3;

/// Width in bytes, as `str::len` counts.
pub open spec fn byte_len(s: Seq<char>) -> nat {
    encode_utf8(s).len()
}

/// The description of a row, empty when there is none.
pub open spec fn description_text(r: TableRow) -> Seq<char> {
    match r.description {
        Some(d) => d@,
        None => Seq::empty(),
    }
}

/// The larger of two widths.
pub open spec fn wider(a: nat, b: nat) -> nat {
    if a >= b { a } else { b }
}

/// The widest id of `rows`, at least `floor`.
pub open spec fn id_width(rows: Seq<TableRow>, floor: nat) -> nat
    decreases rows.len(),
{
    if rows.len() == 0 { floor } else { wider(id_width(rows.drop_last(), floor), byte_len(rows.last().id@)) }
}

/// The widest name of `rows`, at least `floor`.
pub open spec fn name_width(rows: Seq<TableRow>, floor: nat) -> nat
    decreases rows.len(),
{
    if rows.len() == 0 { floor } else { wider(name_width(rows.drop_last(), floor), byte_len(rows.last().name@)) }
}

/// The widest description of `rows`, at least `floor`.
pub open spec fn desc_width(rows: Seq<TableRow>, floor: nat) -> nat
    decreases rows.len(),
{
    if rows.len() == 0 { floor } else { wider(desc_width(rows.drop_last(), floor), byte_len(description_text(rows.last()))) }
}

/// `n` spaces, minus `used` (none when `used >= n`).
pub open spec fn padding(n: nat, used: nat) -> Seq<char> {
    repeat(" "@, if n >= used { (n - used) as nat } else { 0 })
}

/// The header line of a table whose columns are `name_col`, `id_col` and
/// `desc_col` wide, given the painted headings.
pub open spec fn header_line(name_col: nat, id_col: nat, desc_col: nat, a: Seq<char>, b: Seq<char>, c: Seq<char>, d: Seq<char>) -> Seq<char> {
    "  "@ + a + padding(name_col, 4) + b + padding(id_col, 2) + c + padding(desc_col, 11) + d
}

/// A row line of such a table, given the painted cells.
pub open spec fn row_line(r: TableRow, name_col: nat, id_col: nat, desc_col: nat, a: Seq<char>, b: Seq<char>, c: Seq<char>, d: Seq<char>) -> Seq<char> {
    "  "@ + a + padding(name_col, byte_len(r.name@)) + b + padding(id_col, byte_len(r.id@)) + c
        + padding(desc_col, byte_len(description_text(r))) + d
}

/// `line` is row `r` of the table, with its cells painted: name in cyan, id in
/// bold, description and source dimmed.
pub open spec fn is_row_line(line: Seq<char>, r: TableRow, name_col: nat, id_col: nat, desc_col: nat) -> bool {
    exists|a: Seq<char>, b: Seq<char>, c: Seq<char>, d: Seq<char>|
        is_painting(a, r.name@, cyan_code()) && is_painting(b, r.id@, bold_code()) && is_painting(c, description_text(r), dimmed_code())
            && is_painting(d, r.source@, dimmed_code())
            && line == #[trigger] row_line(r, name_col, id_col, desc_col, a, b, c, d)
}

/// `line` is the header of the table, its headings in bold.
pub open spec fn is_header_line(line: Seq<char>, name_col: nat, id_col: nat, desc_col: nat) -> bool {
    exists|a: Seq<char>, b: Seq<char>, c: Seq<char>, d: Seq<char>|
        is_painting(a, "Name"@, bold_code()) && is_painting(b, "ID"@, bold_code())
            && is_painting(c, "Description"@, bold_code()) && is_painting(d, "Source"@, bold_code())
            && line == #[trigger] header_line(name_col, id_col, desc_col, a, b, c, d)
}

/// `s` holds no escape character.
pub open spec fn no_escape(s: Seq<char>) -> bool {
    forall|i: int| 0 <= i < s.len() ==> s[i] != '\x1B'
}

/// `s` with each escape sequence (an escape character up to and including the
/// next `m`) left out; `inside` says that the scan starts within one.
pub open spec fn strip_from(s: Seq<char>, inside: bool) -> Seq<char>
    decreases s.len(),
{
    if s.len() == 0 {
        Seq::empty()
    } else if inside {
        strip_from(s.drop_first(), s[0] != 'm')
    } else if s[0] == '\x1B' {
        strip_from(s.drop_first(), true)
    } else {
        seq![s[0]] + strip_from(s.drop_first(), false)
    }
}

/// The text that a terminal shows of `s`: `s` without its escape sequences.
pub open spec fn strip_escapes(s: Seq<char>) -> Seq<char> {
    strip_from(s, false)
}

/// A style sequence: an escape character and `[`, then no `m` up to the final `m`.
pub open spec fn is_style_code(code: Seq<char>) -> bool {
    &&& code.len() >= 2
    &&& code[0] == '\x1B'
    &&& code.last() == 'm'
    &&& forall|i: int| 1 <= i < code.len() - 1 ==> code[i] != 'm'
}

/// A row whose texts hold no escape character.
pub open spec fn row_without_escapes(r: TableRow) -> bool {
    no_escape(r.name@) && no_escape(r.id@) && no_escape(description_text(r)) && no_escape(r.source@)
}

proof fn lemma_strip_plain_prefix(t: Seq<char>, rest: Seq<char>)
    requires
        no_escape(t),
    ensures
        strip_from(t + rest, false) == t + strip_from(rest, false),
    decreases t.len(),
{
    if t.len() > 0 {
        lemma_strip_plain_prefix(t.drop_first(), rest);
        assert((t + rest).drop_first() =~= t.drop_first() + rest);
        assert((t + rest)[0] == t[0]);
        assert(seq![t[0]] + (t.drop_first() + strip_from(rest, false)) =~= t + strip_from(rest, false));
    } else {
        assert(t + rest =~= rest);
        assert(t + strip_from(rest, false) =~= strip_from(rest, false));
    }
}

proof fn lemma_strip_inside(mid: Seq<char>, rest: Seq<char>)
    requires
        forall|i: int| 0 <= i < mid.len() ==> mid[i] != 'm',
    ensures
        strip_from(mid + seq!['m'] + rest, true) == strip_from(rest, false),
    decreases mid.len(),
{
    let s = mid + seq!['m'] + rest;
    if mid.len() == 0 {
        assert(s.drop_first() =~= rest);
        assert(s[0] == 'm');
    } else {
        lemma_strip_inside(mid.drop_first(), rest);
        assert(s.drop_first() =~= mid.drop_first() + seq!['m'] + rest);
        assert(s[0] == mid[0]);
    }
}

proof fn lemma_strip_code(code: Seq<char>, rest: Seq<char>)
    requires
        is_style_code(code),
    ensures
        strip_from(code + rest, false) == strip_from(rest, false),
{
    let mid = code.subrange(1, code.len() - 1);
    let s = code + rest;
    assert(s.drop_first() =~= mid + seq!['m'] + rest);
    assert(s[0] == '\x1B');
    lemma_strip_inside(mid, rest);
}

proof fn lemma_reset_is_style_code()
    ensures
        is_style_code(reset_code()),
{
    reveal_strlit("\x1B[0m");
    assert(reset_code()[1] == '[');
    assert(reset_code()[2] == '0');
}

proof fn lemma_strip_painting(p: Seq<char>, s: Seq<char>, t: Seq<char>, code: Seq<char>, rest: Seq<char>)
    requires
        no_escape(p),
        no_escape(t),
        is_style_code(code),
        is_painting(s, t, code),
    ensures
        strip_from(p + (s + rest), false) == p + (t + strip_from(rest, false)),
{
    if s == t {
        assert forall|i: int| 0 <= i < (p + t).len() implies (p + t)[i] != '\x1B' by {
            if i < p.len() {
                assert((p + t)[i] == p[i]);
            } else {
                assert((p + t)[i] == t[i - p.len()]);
            }
        }
        assert(p + (s + rest) =~= (p + t) + rest);
        lemma_strip_plain_prefix(p + t, rest);
        assert((p + t) + strip_from(rest, false) =~= p + (t + strip_from(rest, false)));
    } else {
        lemma_reset_is_style_code();
        lemma_no_reset(t);
        lemma_plain_body(t, code);
        assert(p + (s + rest) =~= p + (code + (t + (reset_code() + rest))));
        lemma_strip_plain_prefix(p, code + (t + (reset_code() + rest)));
        lemma_strip_code(code, t + (reset_code() + rest));
        lemma_strip_plain_prefix(t, reset_code() + rest);
        lemma_strip_code(reset_code(), rest);
    }
}

/// Eight texts joined left to right are the same joined right to left.
proof fn lemma_nest8(
    x0: Seq<char>, x1: Seq<char>, x2: Seq<char>, x3: Seq<char>,
    x4: Seq<char>, x5: Seq<char>, x6: Seq<char>, x7: Seq<char>,
)
    ensures
        x0 + x1 + x2 + x3 + x4 + x5 + x6 + x7 == x0 + (x1 + (x2 + (x3 + (x4 + (x5 + (x6 + x7)))))),
{
    let s6 = x6 + x7;
    let s5 = x5 + s6;
    let s4 = x4 + s5;
    let s3 = x3 + s4;
    let s2 = x2 + s3;
    let s1 = x1 + s2;
    lemma_concat_associative(x0 + x1 + x2 + x3 + x4 + x5, x6, x7);
    lemma_concat_associative(x0 + x1 + x2 + x3 + x4, x5, s6);
    lemma_concat_associative(x0 + x1 + x2 + x3, x4, s5);
    lemma_concat_associative(x0 + x1 + x2, x3, s4);
    lemma_concat_associative(x0 + x1, x2, s3);
    lemma_concat_associative(x0, x1, s2);
}

proof fn lemma_padding_plain(n: nat, used: nat)
    ensures
        no_escape(padding(n, used)),
{
    reveal_strlit(" ");
    lemma_repeat_space(if n >= used { (n - used) as nat } else { 0 });
}

proof fn lemma_repeat_space(k: nat)
    ensures
        no_escape(repeat(" "@, k)),
    decreases k,
{
    reveal_strlit(" ");
    if k > 0 {
        lemma_repeat_space((k - 1) as nat);
        let r = repeat(" "@, k);
        assert forall|i: int| 0 <= i < r.len() implies r[i] != '\x1B' by {
            if i < r.len() - 1 {
                assert(r[i] == repeat(" "@, (k - 1) as nat)[i]);
            } else {
                assert(r[i] == " "@[0]);
            }
        }
    }
}

/// Stripping a line of four painted cells, each after plain text, gives the
/// line with the plain cells.
proof fn lemma_strip_four_cells(
    p0: Seq<char>, a: Seq<char>, ta: Seq<char>, ca: Seq<char>,
    p1: Seq<char>, b: Seq<char>, tb: Seq<char>, cb: Seq<char>,
    p2: Seq<char>, c: Seq<char>, tc: Seq<char>, cc: Seq<char>,
    p3: Seq<char>, d: Seq<char>, td: Seq<char>, cd: Seq<char>,
)
    requires
        no_escape(p0), no_escape(p1), no_escape(p2), no_escape(p3),
        no_escape(ta), no_escape(tb), no_escape(tc), no_escape(td),
        is_style_code(ca), is_style_code(cb), is_style_code(cc), is_style_code(cd),
        is_painting(a, ta, ca), is_painting(b, tb, cb), is_painting(c, tc, cc), is_painting(d, td, cd),
    ensures
        strip_escapes(p0 + a + p1 + b + p2 + c + p3 + d) == p0 + ta + p1 + tb + p2 + tc + p3 + td,
{
    let e = Seq::<char>::empty();
    let r3 = p3 + (d + e);
    let r2 = p2 + (c + r3);
    let r1 = p1 + (b + r2);
    lemma_strip_painting(p3, d, td, cd, e);
    lemma_strip_painting(p2, c, tc, cc, r3);
    lemma_strip_painting(p1, b, tb, cb, r2);
    lemma_strip_painting(p0, a, ta, ca, r1);
    assert(strip_from(e, false) == e);
    assert(d + e =~= d);
    assert(td + e =~= td);
    lemma_nest8(p0, a, p1, b, p2, c, p3, d);
    lemma_nest8(p0, ta, p1, tb, p2, tc, p3, td);
}

proof fn lemma_table_codes()
    ensures
        is_style_code(bold_code()),
        is_style_code(dimmed_code()),
        is_style_code(cyan_code()),
        no_escape("  "@),
        no_escape("Name"@),
        no_escape("ID"@),
        no_escape("Description"@),
        no_escape("Source"@),
{
    reveal_strlit("\x1B[1m");
    reveal_strlit("\x1B[2m");
    reveal_strlit("\x1B[36m");
    reveal_strlit("  ");
    reveal_strlit("Name");
    reveal_strlit("ID");
    reveal_strlit("Description");
    reveal_strlit("Source");
    assert(bold_code()[1] == '[' && bold_code()[2] == '1');
    assert(dimmed_code()[1] == '[' && dimmed_code()[2] == '2');
    assert(cyan_code()[1] == '[' && cyan_code()[2] == '3' && cyan_code()[3] == '6');
}

/// On a terminal, where escape sequences do not show, the lines of a table
/// read as the plain table: the headings and cells as they are, each column
/// padded as in the painted lines. This holds when no text of a row holds an
/// escape character.
pub proof fn lemma_table_reads_plain(
    rows: Seq<TableRow>,
    lines: Seq<Seq<char>>,
    name_col: nat,
    id_col: nat,
    desc_col: nat,
)
    requires
        lines.len() == rows.len() + 1,
        is_header_line(lines[0], name_col, id_col, desc_col),
        forall|i: int| 0 <= i < rows.len() ==> #[trigger] is_row_line(lines[i + 1], rows[i], name_col, id_col, desc_col),
        forall|i: int| 0 <= i < rows.len() ==> row_without_escapes(#[trigger] rows[i]),
    ensures
        strip_escapes(lines[0]) == header_line(name_col, id_col, desc_col, "Name"@, "ID"@, "Description"@, "Source"@),
        forall|i: int| 0 <= i < rows.len() ==> #[trigger] strip_escapes(lines[i + 1]) == row_line(
            rows[i], name_col, id_col, desc_col,
            rows[i].name@, rows[i].id@, description_text(rows[i]), rows[i].source@,
        ),
{
    lemma_table_codes();
    let (a, b, c, d) = choose|a: Seq<char>, b: Seq<char>, c: Seq<char>, d: Seq<char>|
        is_painting(a, "Name"@, bold_code()) && is_painting(b, "ID"@, bold_code())
            && is_painting(c, "Description"@, bold_code()) && is_painting(d, "Source"@, bold_code())
            && lines[0] == #[trigger] header_line(name_col, id_col, desc_col, a, b, c, d);
    lemma_padding_plain(name_col, 4);
    lemma_padding_plain(id_col, 2);
    lemma_padding_plain(desc_col, 11);
    lemma_strip_four_cells(
        "  "@, a, "Name"@, bold_code(),
        padding(name_col, 4), b, "ID"@, bold_code(),
        padding(id_col, 2), c, "Description"@, bold_code(),
        padding(desc_col, 11), d, "Source"@, bold_code(),
    );
    assert forall|i: int| 0 <= i < rows.len() implies #[trigger] strip_escapes(lines[i + 1]) == row_line(
        rows[i], name_col, id_col, desc_col,
        rows[i].name@, rows[i].id@, description_text(rows[i]), rows[i].source@,
    ) by {
        let r = rows[i];
        assert(is_row_line(lines[i + 1], r, name_col, id_col, desc_col));
        assert(row_without_escapes(r));
        let (a, b, c, d) = choose|a: Seq<char>, b: Seq<char>, c: Seq<char>, d: Seq<char>|
            is_painting(a, r.name@, cyan_code()) && is_painting(b, r.id@, bold_code()) && is_painting(c, description_text(r), dimmed_code())
                && is_painting(d, r.source@, dimmed_code())
                && lines[i + 1] == #[trigger] row_line(r, name_col, id_col, desc_col, a, b, c, d);
        lemma_padding_plain(name_col, byte_len(r.name@));
        lemma_padding_plain(id_col, byte_len(r.id@));
        lemma_padding_plain(desc_col, byte_len(description_text(r)));
        lemma_strip_four_cells(
            "  "@, a, r.name@, cyan_code(),
            padding(name_col, byte_len(r.name@)), b, r.id@, bold_code(),
            padding(id_col, byte_len(r.id@)), c, description_text(r), dimmed_code(),
            padding(desc_col, byte_len(description_text(r))), d, r.source@, dimmed_code(),
        );
    }
}

/// Strings short enough that a width plus the padding fits in a `usize`.
pub open spec fn rows_fit(rows: Seq<TableRow>) -> bool {
    forall|i: int| 0 <= i < rows.len() ==> {
        &&& byte_len(#[trigger] rows[i].id@) <= isize::MAX
        &&& byte_len(rows[i].name@) <= isize::MAX
        &&& byte_len(description_text(rows[i])) <= isize::MAX
    }
}

fn description_of<'a>(r: &TableRow<'a>) -> (d: &'a str)
    ensures
        d@ == description_text(*r),
{
    match r.description {
        Some(d) => d,
        None => {
            proof {
                reveal_strlit("");
            }
            ""
        },
    }
}

/// The column widths (name, id, description) of `rows`, each at least its floor.
fn widths(rows: &[TableRow], name_floor: usize, id_floor: usize, desc_floor: usize) -> (w: (usize, usize, usize))
    requires
        rows_fit(rows@),
        name_floor <= isize::MAX,
        id_floor <= isize::MAX,
        desc_floor <= isize::MAX,
    ensures
        w.0 == name_width(rows@, name_floor as nat),
        w.1 == id_width(rows@, id_floor as nat),
        w.2 == desc_width(rows@, desc_floor as nat),
        w.0 <= isize::MAX,
        w.1 <= isize::MAX,
        w.2 <= isize::MAX,
{
    let mut nw = name_floor;
    let mut iw = id_floor;
    let mut dw = desc_floor;
    let mut i: usize = 0;
    assert(rows@.take(0) =~= Seq::<TableRow>::empty());
    while i < rows.len()
        invariant
            i <= rows.len(),
            rows_fit(rows@),
            nw == name_width(rows@.take(i as int), name_floor as nat),
            iw == id_width(rows@.take(i as int), id_floor as nat),
            dw == desc_width(rows@.take(i as int), desc_floor as nat),
            nw <= isize::MAX,
            iw <= isize::MAX,
            dw <= isize::MAX,
        decreases rows.len() - i,
    {
        let r = &rows[i];
        assert(rows@.take(i + 1).drop_last() =~= rows@.take(i as int));
        assert(rows@.take(i + 1).last() == *r);
        assert(byte_len(r.id@) <= isize::MAX);
        let nl = r.name.len();
        let il = r.id.len();
        let dl = description_of(r).len();
        if nl > nw {
            nw = nl;
        }
        if il > iw {
            iw = il;
        }
        if dl > dw {
            dw = dl;
        }
        i = i + 1;
    }
    assert(rows@.take(rows.len() as int) =~= rows@);
    (nw, iw, dw)
}

/// Appends `n - used` spaces (none when `used >= n`).
fn push_padding(out: &mut Vec<char>, n: usize, used: usize)
    ensures
        final(out)@ == old(out)@ + padding(n as nat, used as nat),
{
    let k: usize = if n >= used { n - used } else { 0 };
    push_repeat(out, " ", k);
}

/// The lines of a listing: a header (`Name`, `ID`, `Description`, `Source` in
/// bold) and a line per row (name in cyan, id in bold, description and source
/// dimmed), each column padded to its widest entry plus three spaces.
pub fn format_table(rows: &[TableRow]) -> (lines: Vec<String>)
    requires
        rows_fit(rows@),
    ensures
        lines@.len() == rows@.len() + 1,
        is_header_line(lines@[0]@,
            name_width(rows@, 4) + 3, id_width(rows@, 2) + 3, desc_width(rows@, 11) + 3),
        forall|i: int| 0 <= i < rows@.len() ==> #[trigger] is_row_line(lines@[i + 1]@, rows@[i],
            name_width(rows@, 4) + 3, id_width(rows@, 2) + 3, desc_width(rows@, 11) + 3),
{
    let (nw, iw, dw) = widths(rows, 4, 2, 11);
    let name_col = nw + TABLE_COL_PAD;
    let id_col = iw + TABLE_COL_PAD;
    let desc_col = dw + TABLE_COL_PAD;
    let mut lines: Vec<String> = Vec::new();

    proof {
        reveal_strlit("Name");
        reveal_strlit("ID");
        reveal_strlit("Description");
        reveal_strlit("Source");
        reveal_strlit("\x1B[0m");
    }
    let a = paint_bold("Name");
    let b = paint_bold("ID");
    let c = paint_bold("Description");
    let d = paint_bold("Source");
    let mut head: Vec<char> = Vec::new();
    push_str(&mut head, "  ");
    push_str(&mut head, a.as_str());
    push_padding(&mut head, name_col, 4);
    push_str(&mut head, b.as_str());
    push_padding(&mut head, id_col, 2);
    push_str(&mut head, c.as_str());
    push_padding(&mut head, desc_col, 11);
    push_str(&mut head, d.as_str());
    assert(head@ =~= header_line(name_col as nat, id_col as nat, desc_col as nat, a@, b@, c@, d@));
    lines.push(string_of(head.as_slice()));
    assert(lines@[0]@ == header_line(name_col as nat, id_col as nat, desc_col as nat, a@, b@, c@, d@));

    let mut i: usize = 0;
    while i < rows.len()
        invariant
            i <= rows.len(),
            rows_fit(rows@),
            lines@.len() == i + 1,
            name_col == name_width(rows@, 4) + 3,
            id_col == id_width(rows@, 2) + 3,
            desc_col == desc_width(rows@, 11) + 3,
            is_header_line(lines@[0]@, name_col as nat, id_col as nat, desc_col as nat),
            forall|j: int| 0 <= j < i ==> #[trigger] is_row_line(lines@[j + 1]@, rows@[j],
                name_col as nat, id_col as nat, desc_col as nat),
        decreases rows.len() - i,
    {
        let r = &rows[i];
        assert(byte_len(rows@[i as int].id@) <= isize::MAX);
        let desc = description_of(r);
        let pa = paint_cyan(r.name);
        let pb = paint_bold(r.id);
        let pc = paint_dimmed(desc);
        let pd = paint_dimmed(r.source.as_str());
        let mut line: Vec<char> = Vec::new();
        push_str(&mut line, "  ");
        push_str(&mut line, pa.as_str());
        push_padding(&mut line, name_col, r.name.len());
        push_str(&mut line, pb.as_str());
        push_padding(&mut line, id_col, r.id.len());
        push_str(&mut line, pc.as_str());
        push_padding(&mut line, desc_col, desc.len());
        push_str(&mut line, pd.as_str());
        assert(line@ =~= row_line(*r, name_col as nat, id_col as nat, desc_col as nat, pa@, pb@, pc@, pd@));
        let ghost before = lines@;
        lines.push(string_of(line.as_slice()));
        assert(is_row_line(lines@[i + 1]@, rows@[i as int], name_col as nat, id_col as nat, desc_col as nat));
        assert forall|j: int| 0 <= j < i + 1 implies #[trigger] is_row_line(lines@[j + 1]@, rows@[j],
            name_col as nat, id_col as nat, desc_col as nat) by {
            if j < i {
                assert(lines@[j + 1] == before[j + 1]);
            }
        }
        i = i + 1;
    }
    lines
}

/// A selector item: the name (cyan) padded to its column, the id (bold) padded
/// to its column, then the description (dimmed).
pub open spec fn item_line(r: TableRow, name_col: nat, id_col: nat, a: Seq<char>, b: Seq<char>, c: Seq<char>) -> Seq<char> {
    a + padding(name_col, byte_len(r.name@)) + b + padding(id_col, byte_len(r.id@)) + c
}

/// `line` is the selector item for `r`.
pub open spec fn is_item_line(line: Seq<char>, r: TableRow, name_col: nat, id_col: nat) -> bool {
    exists|a: Seq<char>, b: Seq<char>, c: Seq<char>|
        is_painting(a, r.name@, cyan_code()) && is_painting(b, r.id@, bold_code()) && is_painting(c, description_text(r), dimmed_code())
            && line == #[trigger] item_line(r, name_col, id_col, a, b, c)
}

/// The items of an interactive selector: one line per row, without a header,
/// names and ids padded to their widest entry plus three spaces.
pub fn format_selector_items(rows: &[TableRow]) -> (items: Vec<String>)
    requires
        rows_fit(rows@),
    ensures
        items@.len() == rows@.len(),
        forall|i: int| 0 <= i < rows@.len() ==> #[trigger] is_item_line(items@[i]@, rows@[i],
            name_width(rows@, 0) + 3, id_width(rows@, 0) + 3),
{
    let (nw, iw, _dw) = widths(rows, 0, 0, 0);
    let name_col = nw + TABLE_COL_PAD;
    let id_col = iw + TABLE_COL_PAD;
    let mut items: Vec<String> = Vec::new();
    let mut i: usize = 0;
    while i < rows.len()
        invariant
            i <= rows.len(),
            rows_fit(rows@),
            items@.len() == i,
            name_col == name_width(rows@, 0) + 3,
            id_col == id_width(rows@, 0) + 3,
            forall|j: int| 0 <= j < i ==> #[trigger] is_item_line(items@[j]@, rows@[j], name_col as nat, id_col as nat),
        decreases rows.len() - i,
    {
        let r = &rows[i];
        assert(byte_len(rows@[i as int].id@) <= isize::MAX);
        let desc = description_of(r);
        let pa = paint_cyan(r.name);
        let pb = paint_bold(r.id);
        let pc = paint_dimmed(desc);
        let mut line: Vec<char> = Vec::new();
        push_str(&mut line, pa.as_str());
        push_padding(&mut line, name_col, r.name.len());
        push_str(&mut line, pb.as_str());
        push_padding(&mut line, id_col, r.id.len());
        push_str(&mut line, pc.as_str());
        assert(line@ =~= item_line(*r, name_col as nat, id_col as nat, pa@, pb@, pc@));
        let ghost before = items@;
        items.push(string_of(line.as_slice()));
        assert(is_item_line(items@[i as int]@, rows@[i as int], name_col as nat, id_col as nat));
        assert forall|j: int| 0 <= j < i + 1 implies #[trigger] is_item_line(items@[j]@, rows@[j], name_col as nat, id_col as nat) by {
            if j < i {
                assert(items@[j] == before[j]);
            }
        }
        i = i + 1;
    }
    items
}

} // verus!
