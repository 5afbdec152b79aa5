//! The application's decisions: which template and brand a conversion uses,
//! what a document becomes, where the PDF goes, and what each command tells
//! the user. Reading files, running git and prompting are left to the caller,
//! which hands in what it found.

use std::path::PathBuf;
use serde_yml::Value;
use vstd::prelude::*;
use crate::converter::{cmark_events, markdown_to_typst, run, substitute_all, MdEvent};
use crate::domain::{
    either, file_stem_of, joined_path, opt_str_view, path_file_stem, path_join, path_with_extension,
    with_extension_of, Config, MdDocsError, Template,
};
use crate::frontmatter::{
    extra_map, frontmatter_split, lookup, yaml_mapping, Document, Metadata,
};
use crate::logger::FileLogger;
use crate::modifiers::{
    block_map, inline_only, resolve_modifiers, resolves_to, ConversionContext, ModifierRegistry,
    ResolvedModifier,
};
use crate::output::{
    byte_len, desc_width, description_text, format_table, id_width, is_header_line, is_row_line,
    level_text, name_width, rows_fit, CliMessage, Destination, TableRow,
};
use crate::domain::{path_display, path_text, source_text, Brand, DEFAULT_REPO_NAME, DEFAULT_REPO_URL};
use crate::output::{bold_code, dimmed_code, paint_bold, paint_dimmed, is_painting};
use crate::sources::{is_git_uri, is_git_uri_spec, repo_name_from_uri, repo_name_spec};
use crate::templates::TemplateManager;
use crate::text::{
    cat3, cat5, cat7, chars_of, holds_name, opt_view, push_str, slice_chars, starts_with, starts_with_chars,
    string_of, string_views,
};
use crate::typst::{sections_spec, ContentSections};

verus! {

/// How a template or brand is picked.
#[derive(Debug)]
pub enum Choice {
    /// By this name.
    Named(String),
    /// By asking the user to pick one of those discovered.
    Prompt,
}

/// The marker above which converted content is the document's header.
pub const COLUMNS_START_MARKER: &'static str = "%%COLUMNS_START%%";

/// The Typst markup for `events` with the resolved modifiers `ms`.
pub open spec fn typst_with(events: Seq<MdEvent>, ms: Seq<ResolvedModifier>) -> Seq<char> {
    substitute_all(run(events, block_map(ms)).output, inline_only(ms))
}

/// `ms` is the registry resolved against the ignore list `ignore`.
pub open spec fn resolved_registry(ms: Seq<ResolvedModifier>, registry: ModifierRegistry, ignore: Seq<Seq<char>>) -> bool {
    &&& ms.len() == registry.entry_seq().len()
    &&& forall|i: int| 0 <= i < ms.len() ==> #[trigger] resolves_to(
        ms[i],
        registry.key_at(i),
        registry.entry_seq()[i].1,
        ignore,
    )
}

/// The characters of an optional string, empty when there is none.
pub open spec fn or_empty(o: Option<Seq<char>>) -> Seq<char> {
    match o {
        Some(s) => s,
        None => Seq::empty(),
    }
}

/// The start of a Typst warning about a font it does not know.
pub open spec fn font_warning_prefix() -> Seq<char> {
    "unknown font family: "@
}

/// The font a Typst warning is about, if it is about an unknown font.
pub open spec fn font_of(w: Seq<char>) -> Option<Seq<char>> {
    if starts_with(w, font_warning_prefix()) {
        Some(w.skip(font_warning_prefix().len() as int))
    } else {
        None
    }
}

/// The unknown fonts that the first `j` warnings are about.
pub open spec fn fonts_before(ws: Seq<Seq<char>>, j: int) -> Seq<Seq<char>>
    decreases j,
{
    if j <= 0 {
        Seq::empty()
    } else {
        fonts_before(ws, j - 1) + match font_of(ws[j - 1]) {
            Some(f) => seq![f],
            None => Seq::empty(),
        }
    }
}

/// The advice given for a missing font.
pub open spec fn missing_font_text(font: Seq<char>) -> Seq<char> {
    "font '"@ + font
        + "' not found \u{2014} falling back to embedded default. Install the font or update the brand to use an available font."@
}

/// The warnings shown for the first `n` Typst warnings: each unknown font
/// once, with advice; any other warning as it is, after `typst: `.
pub open spec fn warning_texts(ws: Seq<Seq<char>>, n: int) -> Seq<Seq<char>>
    decreases n,
{
    if n <= 0 {
        Seq::empty()
    } else {
        warning_texts(ws, n - 1) + match font_of(ws[n - 1]) {
            Some(f) => if fonts_before(ws, n - 1).contains(f) { Seq::empty() } else { seq![missing_font_text(f)] },
            None => seq!["typst: "@ + ws[n - 1]],
        }
    }
}

/// The texts shown for the first `n` warnings that name a font were each
/// about a font of those warnings.
proof fn lemma_font_texts_name_seen_fonts(ws: Seq<Seq<char>>, n: int)
    requires
        0 <= n <= ws.len(),
    ensures
        forall|k: int, g: Seq<char>| 0 <= k < warning_texts(ws, n).len()
            && #[trigger] warning_texts(ws, n)[k] == #[trigger] missing_font_text(g)
            ==> fonts_before(ws, n).contains(g),
        forall|i: int, j: int, f: Seq<char>|
            #![trigger warning_texts(ws, n)[i], warning_texts(ws, n)[j], missing_font_text(f)]
            0 <= i < j < warning_texts(ws, n).len() && warning_texts(ws, n)[i] == missing_font_text(f)
                ==> warning_texts(ws, n)[j] != missing_font_text(f),
    decreases n,
{
    reveal_strlit("font '");
    reveal_strlit("typst: ");
    if n > 0 {
        lemma_font_texts_name_seen_fonts(ws, n - 1);
        let prev = warning_texts(ws, n - 1);
        let cur = warning_texts(ws, n);
        let fb = fonts_before(ws, n - 1);
        let fb_next = fonts_before(ws, n);
        assert forall|g: Seq<char>| fb.contains(g) implies fb_next.contains(g) by {
            let i = choose|i: int| 0 <= i < fb.len() && fb[i] == g;
            assert(fb_next[i] == g);
        }
        assert forall|k: int, g: Seq<char>| 0 <= k < cur.len() && #[trigger] cur[k] == #[trigger] missing_font_text(g)
            implies fb_next.contains(g) by {
            if k < prev.len() {
                assert(cur[k] == prev[k]);
            } else {
                match font_of(ws[n - 1]) {
                    Some(f) => {
                        assert(cur[k] == missing_font_text(f));
                        lemma_missing_font_text_injective(f, g);
                        assert(fb_next[fb.len() as int] == f);
                    },
                    None => {
                        assert(cur[k] == "typst: "@ + ws[n - 1]);
                        assert(cur[k][0] == 't');
                        assert(missing_font_text(g)[0] == 'f');
                    },
                }
            }
        }
        assert forall|i: int, j: int, f: Seq<char>|
            #![trigger cur[i], cur[j], missing_font_text(f)]
            0 <= i < j < cur.len() && cur[i] == missing_font_text(f)
            implies cur[j] != missing_font_text(f) by {
            if j < prev.len() {
                assert(cur[i] == prev[i] && cur[j] == prev[j]);
            } else if cur[j] == missing_font_text(f) {
                assert(cur[i] == prev[i]);
                assert(fb.contains(f));
                match font_of(ws[n - 1]) {
                    Some(h) => {
                        assert(cur[j] == missing_font_text(h));
                        lemma_missing_font_text_injective(h, f);
                    },
                    None => {
                        assert(cur[j][0] == 't');
                        assert(missing_font_text(f)[0] == 'f');
                    },
                }
            }
        }
    }
}

/// Different fonts get different advice.
proof fn lemma_missing_font_text_injective(f: Seq<char>, g: Seq<char>)
    requires
        missing_font_text(f) == missing_font_text(g),
    ensures
        f == g,
{
    let p = "font '"@;
    let q = "' not found \u{2014} falling back to embedded default. Install the font or update the brand to use an available font."@;
    assert(missing_font_text(f) == p + f + q);
    assert(f.len() == g.len());
    assert((p + f + q).subrange(p.len() as int, (p.len() + f.len()) as int) =~= f);
    assert((p + g + q).subrange(p.len() as int, (p.len() + g.len()) as int) =~= g);
}

/// Each font that Typst does not know is warned about once, however many of
/// its warnings name it.
pub proof fn lemma_each_font_warned_once(ws: Seq<Seq<char>>)
    ensures
        forall|i: int, j: int, f: Seq<char>|
            #![trigger warning_texts(ws, ws.len() as int)[i], warning_texts(ws, ws.len() as int)[j], missing_font_text(f)]
            0 <= i < j < warning_texts(ws, ws.len() as int).len()
                && warning_texts(ws, ws.len() as int)[i] == missing_font_text(f)
                ==> warning_texts(ws, ws.len() as int)[j] != missing_font_text(f),
{
    lemma_font_texts_name_seen_fonts(ws, ws.len() as int);
}

/// Runs the commands: holds the configuration (through its template
/// manager), whether log messages are shown, and the log file.
#[derive(Debug)]
pub struct AppController {
    template_manager: TemplateManager,
    verbose: bool,
    logger: FileLogger,
}

impl AppController {
    /// The configuration in use.
    pub closed spec fn config_of(self) -> Config {
        self.template_manager.config_of()
    }

    /// Whether log messages are shown.
    pub closed spec fn is_verbose(self) -> bool {
        self.verbose
    }

    /// The log file.
    pub closed spec fn logger_of(self) -> FileLogger {
        self.logger
    }

    /// A controller for the loaded configuration `config`.
    pub fn new(config: Config, verbose: bool, logger: FileLogger) -> (c: Self)
        ensures
            c.config_of() == config,
            c.is_verbose() == verbose,
            c.logger_of() == logger,
    {
        AppController { template_manager: TemplateManager::new(config), verbose, logger }
    }

    /// The configuration in use.
    pub fn config(&self) -> (c: &Config)
        ensures
            *c == self.config_of(),
    {
        self.template_manager.config()
    }

    /// The template manager of the configuration.
    pub fn template_manager(&self) -> (m: &TemplateManager)
        ensures
            m.config_of() == self.config_of(),
    {
        &self.template_manager
    }

    /// Whether log messages are shown.
    pub fn verbose(&self) -> (b: bool)
        ensures
            b == self.is_verbose(),
    {
        self.verbose
    }

    /// The log file.
    pub fn logger(&self) -> (l: &FileLogger)
        ensures
            *l == self.logger_of(),
    {
        &self.logger
    }

    /// How a message is emitted: the level it is logged at, and where it is
    /// shown (log messages only when verbose).
    pub fn emit(&self, msg: &CliMessage) -> (r: (&'static str, Destination))
        ensures
            r.0@ == level_text(*msg),
            r.1 == match *msg {
                CliMessage::Log(_) => if self.is_verbose() { Destination::Stdout } else { Destination::Hidden },
                CliMessage::Warning(_) | CliMessage::Error(_) => Destination::Stderr,
                _ => Destination::Stdout,
            },
    {
        (msg.level(), msg.destination(self.verbose))
    }

    // -----------------------------------------------------------------------
    // Convert
    // -----------------------------------------------------------------------

    /// The document in `content`: its frontmatter and body, with the
    /// configured author filled in when the frontmatter names none.
    pub fn document_from(&self, content: &str) -> (r: Result<Document, MdDocsError>)
        ensures
            match frontmatter_split(content@) {
                None => r matches Ok(d) && d.raw_body@ == content@ && d.metadata.title is None
                    && opt_view(d.metadata.author) == opt_view(self.config_of().author_setting())
                    && d.metadata.date is None && d.metadata.extra@ == Map::<Seq<char>, Value>::empty(),
                Some((yaml, rest)) => match yaml_mapping(yaml) {
                    Err(msg) => r matches Err(MdDocsError::InvalidFrontmatter(s)) && s@ == msg,
                    Ok(entries) => r matches Ok(d) && d.raw_body@ == rest
                        && opt_view(d.metadata.title) == lookup(entries, "title"@)
                        && opt_view(d.metadata.author) == either(
                            lookup(entries, "author"@),
                            opt_view(self.config_of().author_setting()),
                        )
                        && opt_view(d.metadata.date) == lookup(entries, "date"@)
                        && d.metadata.extra@ == extra_map(entries),
                },
            },
            r matches Ok(d) ==> d.sections.header@.len() == 0 && d.sections.body@.len() == 0
                && d.sections.content@.len() == 0 && d.sections.body_columns@.len() == 0,
    {
        let (mut metadata, raw_body) = Metadata::parse_from_content(content)?;
        if metadata.author.is_none() {
            match self.config().author() {
                Some(a) => {
                    metadata.author = Some(String::from_str(a));
                },
                None => {},
            }
        }
        Ok(Document::new(metadata, raw_body))
    }

    /// The template to convert with: the one named on the command line, else
    /// the configured default, else one the user picks.
    pub fn template_choice(&self, name: Option<String>) -> (c: Choice)
        ensures
            match name {
                Some(n) => c == Choice::Named(n),
                None => match self.config_of().template_setting() {
                    Some(d) => c matches Choice::Named(s) && s@ == d@,
                    None => c is Prompt,
                },
            },
    {
        match name {
            Some(n) => Choice::Named(n),
            None => match self.config().default_template() {
                Some(d) => Choice::Named(String::from_str(d)),
                None => Choice::Prompt,
            },
        }
    }

    /// The brand to convert with: the one named on the command line, else the
    /// configured default (the user's preference wins over the template's),
    /// else the template's default brand, else one the user picks.
    pub fn brand_choice(&self, name: Option<String>, template: &Template) -> (c: Choice)
        ensures
            match name {
                Some(n) => c == Choice::Named(n),
                None => match self.config_of().brand_setting() {
                    Some(d) => c matches Choice::Named(s) && s@ == d@,
                    None => match template.metadata.default_brand {
                        Some(b) => c matches Choice::Named(s) && s@ == b@,
                        None => c is Prompt,
                    },
                },
            },
    {
        match name {
            Some(n) => Choice::Named(n),
            None => match self.config().default_brand() {
                Some(d) => Choice::Named(String::from_str(d)),
                None => match &template.metadata.default_brand {
                    Some(b) => Choice::Named(b.clone()),
                    None => Choice::Prompt,
                },
            },
        }
    }

    /// Converts a document body for `template`: the modifiers of `registry`
    /// are resolved against the template's ignore list, the markdown becomes
    /// Typst, and the Typst is split at `%%COLUMNS_START%%` into sections.
    /// Gives the Typst and its sections; the conversion does not fail.
    pub fn convert(&self, registry: &ModifierRegistry, template: &Template, body: &str) -> (r: Result<(String, ContentSections), MdDocsError>)
        ensures
            r matches Ok((typst, c)) && (exists|ms: Seq<ResolvedModifier>|
                resolved_registry(ms, *registry, string_views(template.metadata.ignore@))
                    && typst@ == typst_with(cmark_events(body@, true, true), ms))
                && (c.header@, c.body@, c.content@, string_views(c.body_columns@)) == sections_spec(
                    typst@,
                    COLUMNS_START_MARKER@,
                ),
    {
        let resolved = resolve_modifiers(registry, template.metadata.ignore.as_slice());
        let context = ConversionContext::from_resolved(resolved.as_slice());
        let typst = markdown_to_typst(body, &context)?;
        let c = ContentSections::from_typst_content(typst.as_str(), COLUMNS_START_MARKER);
        assert(resolved_registry(resolved@, *registry, string_views(template.metadata.ignore@)));
        assert(typst@ == typst_with(cmark_events(body@, true, true), resolved@));
        Ok((typst, c))
    }

    /// Where the PDF goes: the explicit output path; else, when an output
    /// directory is configured, the input's file stem with `.pdf` in it; else
    /// the input path with its extension changed to `pdf`.
    pub fn resolve_output(&self, input: &PathBuf, output: Option<PathBuf>) -> (p: PathBuf)
        ensures
            match output {
                Some(o) => p == o,
                None => match self.config_of().output_dir_setting() {
                    Some(dir) => p == joined_path(dir, or_empty(file_stem_of(*input)) + ".pdf"@),
                    None => p == with_extension_of(*input, "pdf"@),
                },
            },
    {
        match output {
            Some(o) => o,
            None => match self.config().output_dir() {
                Some(dir) => {
                    let mut name: Vec<char> = match path_file_stem(input) {
                        Some(stem) => chars_of(stem.as_str()),
                        None => Vec::new(),
                    };
                    push_str(&mut name, ".pdf");
                    path_join(dir, string_of(name.as_slice()).as_str())
                },
                None => {
                    proof {
                        reveal_strlit("pdf");
                    }
                    path_with_extension(input, "pdf")
                },
            },
        }
    }

    /// The warnings shown for what the Typst compiler warned: an unknown font
    /// once, with advice to install it or change the brand; anything else as
    /// `typst: <warning>`. In order.
    pub fn font_warnings(warnings: &[String]) -> (r: Vec<CliMessage>)
        ensures
            r@.len() == warning_texts(string_views(warnings@), warnings@.len() as int).len(),
            forall|k: int| 0 <= k < r@.len() ==> (#[trigger] r@[k] matches CliMessage::Warning(t)
                && t@ == warning_texts(string_views(warnings@), warnings@.len() as int)[k]),
    {
        let ghost ws = string_views(warnings@);
        let prefix = chars_of("unknown font family: ");
        let mut seen: Vec<Vec<char>> = Vec::new();
        let mut out: Vec<CliMessage> = Vec::new();
        let mut j: usize = 0;
        while j < warnings.len()
            invariant
                j <= warnings.len(),
                ws == string_views(warnings@),
                prefix@ == font_warning_prefix(),
                crate::text::views(seen@) == fonts_before(ws, j as int),
                out@.len() == warning_texts(ws, j as int).len(),
                forall|k: int| 0 <= k < out@.len() ==> (#[trigger] out@[k] matches CliMessage::Warning(t)
                    && t@ == warning_texts(ws, j as int)[k]),
            decreases warnings.len() - j,
        {
            let w = chars_of(warnings[j].as_str());
            assert(w@ == ws[j as int]);
            let ghost before = out@;
            if starts_with_chars(w.as_slice(), prefix.as_slice()) {
                let font = slice_chars(w.as_slice(), prefix.len(), w.len());
                assert(font@ =~= ws[j as int].skip(font_warning_prefix().len() as int));
                let dup = holds_name(&seen, font.as_slice());
                if !dup {
                    let mut text = chars_of("font '");
                    push_str(&mut text, string_of(font.as_slice()).as_str());
                    push_str(
                        &mut text,
                        "' not found \u{2014} falling back to embedded default. Install the font or update the brand to use an available font.",
                    );
                    out.push(CliMessage::Warning(string_of(text.as_slice())));
                }
                seen.push(font);
                assert(crate::text::views(seen@) =~= fonts_before(ws, j as int + 1));
            } else {
                let mut text = chars_of("typst: ");
                push_str(&mut text, warnings[j].as_str());
                out.push(CliMessage::Warning(string_of(text.as_slice())));
                assert(crate::text::views(seen@) =~= fonts_before(ws, j as int + 1));
            }
            assert forall|k: int| 0 <= k < out@.len() implies (#[trigger] out@[k] matches CliMessage::Warning(t)
                && t@ == warning_texts(ws, j as int + 1)[k]) by {
                if k < before.len() {
                    assert(out@[k] == before[k]);
                }
            }
            j = j + 1;
        }
        out
    }
}


/// What is shown when no template was found.
pub const NO_TEMPLATES: &'static str = "No templates found. Install base templates with 'md-docs templates install'.";

/// What is shown when no brand was found.
pub const NO_BRANDS: &'static str = "No brands found. Install base templates with 'md-docs templates install'.";

/// Short enough that a column width plus its padding fits in a `usize`.
pub open spec fn fits(s: Seq<char>) -> bool {
    byte_len(s) <= isize::MAX
}

/// The id, name and description of a template fit in a table.
pub open spec fn template_fits(t: Template) -> bool {
    fits(t.id@) && fits(t.metadata.name@) && fits(or_empty(opt_view(t.metadata.description)))
}

/// The id, name and description of a brand fit in a table.
pub open spec fn brand_fits(b: Brand) -> bool {
    fits(b.id@) && fits(b.metadata.name@) && fits(or_empty(opt_view(b.metadata.description)))
}

/// `row` lists the template `t`, with its source.
pub open spec fn lists_template(row: TableRow, t: Template) -> bool {
    &&& row.id@ == t.id@
    &&& row.name@ == t.metadata.name@
    &&& description_text(row) == or_empty(opt_view(t.metadata.description))
    &&& row.source@ == source_text(t.source)
}

/// `row` lists the brand `b`, with its source.
pub open spec fn lists_brand(row: TableRow, b: Brand) -> bool {
    &&& row.id@ == b.id@
    &&& row.name@ == b.metadata.name@
    &&& description_text(row) == or_empty(opt_view(b.metadata.description))
    &&& row.source@ == source_text(b.source)
}

/// `r` is a heading `title`, then the table of `rows` (its header, then a
/// line per row), as plain messages.
pub open spec fn table_messages(r: Seq<CliMessage>, title: Seq<char>, rows: Seq<TableRow>) -> bool {
    let nc = name_width(rows, 4) + 3;
    let ic = id_width(rows, 2) + 3;
    let dc = desc_width(rows, 11) + 3;
    &&& r.len() == rows.len() + 2
    &&& r[0] matches CliMessage::Info(t) && t@ == title
    &&& r[1] matches CliMessage::Plain(h) && is_header_line(h@, nc, ic, dc)
    &&& forall|k: int| 0 <= k < rows.len() ==> (#[trigger] r[k + 2] matches CliMessage::Plain(l)
        && is_row_line(l@, rows[k], nc, ic, dc))
}

/// The heading `title` followed by each line of a table, as plain messages.
fn table_to_messages(title: &str, lines: Vec<String>) -> (r: Vec<CliMessage>)
    ensures
        r@.len() == lines@.len() + 1,
        r@[0] matches CliMessage::Info(t) && t@ == title@,
        forall|k: int| 0 <= k < lines@.len() ==> #[trigger] r@[k + 1] == CliMessage::Plain(lines@[k]),
{
    let mut r: Vec<CliMessage> = Vec::new();
    r.push(CliMessage::Info(String::from_str(title)));
    let ghost orig = lines@;
    let n = lines.len();
    let mut rest = lines;
    let mut k: usize = 0;
    assert(orig.skip(0) =~= orig);
    while k < n
        invariant
            k <= n,
            n == orig.len(),
            rest@ == orig.skip(k as int),
            r@.len() == k + 1,
            r@[0] matches CliMessage::Info(t) && t@ == title@,
            forall|m: int| 0 <= m < k ==> #[trigger] r@[m + 1] == CliMessage::Plain(orig[m]),
        decreases n - k,
    {
        let line = rest.remove(0);
        assert(rest@ =~= orig.skip(k + 1));
        r.push(CliMessage::Plain(line));
        k = k + 1;
    }
    r
}

/// The description of an optional string as a slice.
fn opt_as_str(o: &Option<String>) -> (r: Option<&str>)
    ensures
        opt_str_view(r) == opt_view(*o),
{
    match o {
        Some(s) => Some(s.as_str()),
        None => None,
    }
}

impl AppController {
    /// What listing the templates shows: a warning when there are none, else
    /// the heading `Available templates:` and a table of their names, ids,
    /// descriptions and sources.
    pub fn list_templates(&self, templates: &[Template]) -> (r: Vec<CliMessage>)
        requires
            forall|i: int| 0 <= i < templates@.len() ==> template_fits(#[trigger] templates@[i]),
        ensures
            templates@.len() == 0 ==> r@.len() == 1 && (r@[0] matches CliMessage::Warning(t) && t@ == NO_TEMPLATES@),
            templates@.len() > 0 ==> exists|rows: Seq<TableRow>|
                rows.len() == templates@.len()
                    && (forall|k: int| 0 <= k < rows.len() ==> lists_template(#[trigger] rows[k], templates@[k]))
                    && table_messages(r@, "Available templates:"@, rows),
    {
        if templates.len() == 0 {
            let mut r: Vec<CliMessage> = Vec::new();
            r.push(CliMessage::Warning(String::from_str(NO_TEMPLATES)));
            return r;
        }
        let mut rows: Vec<TableRow> = Vec::new();
        let mut i: usize = 0;
        while i < templates.len()
            invariant
                i <= templates.len(),
                rows@.len() == i,
                forall|k: int| 0 <= k < i ==> lists_template(#[trigger] rows@[k], templates@[k]),
                forall|k: int| 0 <= k < templates@.len() ==> template_fits(#[trigger] templates@[k]),
            decreases templates.len() - i,
        {
            let t = &templates[i];
            rows.push(TableRow {
                id: t.id.as_str(),
                name: t.metadata.name.as_str(),
                description: opt_as_str(&t.metadata.description),
                source: t.source.display_text(),
            });
            i = i + 1;
        }
        assert(rows_fit(rows@)) by {
            assert forall|k: int| 0 <= k < rows@.len() implies {
                &&& byte_len(#[trigger] rows@[k].id@) <= isize::MAX
                &&& byte_len(rows@[k].name@) <= isize::MAX
                &&& byte_len(description_text(rows@[k])) <= isize::MAX
            } by {
                assert(lists_template(rows@[k], templates@[k]));
                assert(template_fits(templates@[k]));
            }
        }
        let lines = format_table(rows.as_slice());
        let ghost ls = lines@;
        let r = table_to_messages("Available templates:", lines);
        proof {
            let rs = rows@;
            let nc = name_width(rs, 4) + 3;
            let ic = id_width(rs, 2) + 3;
            let dc = desc_width(rs, 11) + 3;
            assert(r@[0int + 1] == CliMessage::Plain(ls[0]));
            assert forall|k: int| 0 <= k < rs.len() implies (#[trigger] r@[k + 2] matches CliMessage::Plain(l)
                && is_row_line(l@, rs[k], nc, ic, dc)) by {
                assert(r@[(k + 1) + 1] == CliMessage::Plain(ls[k + 1]));
                assert(is_row_line(ls[k + 1]@, rs[k], nc, ic, dc));
            }
        }
        assert(table_messages(r@, "Available templates:"@, rows@));
        r
    }

    /// What listing the brands shows: a warning when there are none, else the
    /// heading `Available brands:` and a table like that of the templates.
    pub fn list_brands(&self, brands: &[Brand]) -> (r: Vec<CliMessage>)
        requires
            forall|i: int| 0 <= i < brands@.len() ==> brand_fits(#[trigger] brands@[i]),
        ensures
            brands@.len() == 0 ==> r@.len() == 1 && (r@[0] matches CliMessage::Warning(t) && t@ == NO_BRANDS@),
            brands@.len() > 0 ==> exists|rows: Seq<TableRow>|
                rows.len() == brands@.len()
                    && (forall|k: int| 0 <= k < rows.len() ==> lists_brand(#[trigger] rows[k], brands@[k]))
                    && table_messages(r@, "Available brands:"@, rows),
    {
        if brands.len() == 0 {
            let mut r: Vec<CliMessage> = Vec::new();
            r.push(CliMessage::Warning(String::from_str(NO_BRANDS)));
            return r;
        }
        let mut rows: Vec<TableRow> = Vec::new();
        let mut i: usize = 0;
        while i < brands.len()
            invariant
                i <= brands.len(),
                rows@.len() == i,
                forall|k: int| 0 <= k < i ==> lists_brand(#[trigger] rows@[k], brands@[k]),
                forall|k: int| 0 <= k < brands@.len() ==> brand_fits(#[trigger] brands@[k]),
            decreases brands.len() - i,
        {
            let b = &brands[i];
            rows.push(TableRow {
                id: b.id.as_str(),
                name: b.metadata.name.as_str(),
                description: opt_as_str(&b.metadata.description),
                source: b.source.display_text(),
            });
            i = i + 1;
        }
        assert(rows_fit(rows@)) by {
            assert forall|k: int| 0 <= k < rows@.len() implies {
                &&& byte_len(#[trigger] rows@[k].id@) <= isize::MAX
                &&& byte_len(rows@[k].name@) <= isize::MAX
                &&& byte_len(description_text(rows@[k])) <= isize::MAX
            } by {
                assert(lists_brand(rows@[k], brands@[k]));
                assert(brand_fits(brands@[k]));
            }
        }
        let lines = format_table(rows.as_slice());
        let ghost ls = lines@;
        let r = table_to_messages("Available brands:", lines);
        proof {
            let rs = rows@;
            let nc = name_width(rs, 4) + 3;
            let ic = id_width(rs, 2) + 3;
            let dc = desc_width(rs, 11) + 3;
            assert(r@[0int + 1] == CliMessage::Plain(ls[0]));
            assert forall|k: int| 0 <= k < rs.len() implies (#[trigger] r@[k + 2] matches CliMessage::Plain(l)
                && is_row_line(l@, rs[k], nc, ic, dc)) by {
                assert(r@[(k + 1) + 1] == CliMessage::Plain(ls[k + 1]));
                assert(is_row_line(ls[k + 1]@, rs[k], nc, ic, dc));
            }
        }
        assert(table_messages(r@, "Available brands:"@, rows@));
        r
    }
}


// ---------------------------------------------------------------------------
// Configuration display
// ---------------------------------------------------------------------------

/// A line of the configuration display, before it is painted.
pub enum ConfigLine {
    /// `  <label>: <value>`: the label bold, the value dimmed.
    Setting(Seq<char>, Seq<char>),
    /// A blank line, then `  <label>:` with the label bold.
    Heading(Seq<char>),
    /// `    <name> -- <url> (<status>)`: the name bold, the rest dimmed.
    Repo(Seq<char>, Seq<char>, Seq<char>),
    /// `    <path>`, dimmed.
    Local(Seq<char>),
}

/// The message `m` shows the line `l` (colors aside).
pub open spec fn renders(m: CliMessage, l: ConfigLine) -> bool {
    m matches CliMessage::Plain(t) && match l {
        ConfigLine::Setting(label, value) => exists|a: Seq<char>, b: Seq<char>|
            is_painting(a, label, bold_code()) && is_painting(b, value, dimmed_code()) && t@ == #[trigger] setting_text(a, b),
        ConfigLine::Heading(label) => exists|a: Seq<char>| is_painting(a, label, bold_code()) && t@ == #[trigger] heading_text(a),
        ConfigLine::Repo(name, url, status) => exists|a: Seq<char>, b: Seq<char>, c: Seq<char>|
            is_painting(a, name, bold_code()) && is_painting(b, url, dimmed_code()) && is_painting(c, status, dimmed_code())
                && t@ == #[trigger] repo_line_text(a, b, c),
        ConfigLine::Local(path) => exists|a: Seq<char>| is_painting(a, path, dimmed_code()) && t@ == #[trigger] local_line_text(a),
    }
}

/// `  <a>: <b>`.
pub open spec fn setting_text(a: Seq<char>, b: Seq<char>) -> Seq<char> {
    "  "@ + a + ": "@ + b
}

/// A newline, then `  <a>:`.
pub open spec fn heading_text(a: Seq<char>) -> Seq<char> {
    "\n  "@ + a + ":"@
}

/// `    <a> -- <b> (<c>)`.
pub open spec fn repo_line_text(a: Seq<char>, b: Seq<char>, c: Seq<char>) -> Seq<char> {
    "    "@ + a + " -- "@ + b + " ("@ + c + ")"@
}

/// `    <a>`.
pub open spec fn local_line_text(a: Seq<char>) -> Seq<char> {
    "    "@ + a
}

/// The setting line for `label` when `value` is set.
pub open spec fn setting_line(label: Seq<char>, value: Option<Seq<char>>) -> Seq<ConfigLine> {
    match value {
        Some(v) => seq![ConfigLine::Setting(label, v)],
        None => Seq::empty(),
    }
}

/// How an installation status is shown.
pub open spec fn status_text(installed: bool) -> Seq<char> {
    if installed { "installed"@ } else { "not installed"@ }
}

/// The lines showing the configuration `c`: each setting that is set, then
/// the repositories (with `installed[i]` telling whether repository `i` is
/// cloned) and the local directories, each list under its heading when it is
/// not empty.
pub open spec fn config_lines(c: Config, installed: Seq<bool>) -> Seq<ConfigLine> {
    let repos = c.repo_list();
    let locals = c.local_list();
    setting_line("Default template"@, opt_view(c.template_setting()))
        + setting_line("Default brand"@, opt_view(c.brand_setting()))
        + setting_line(
        "Output dir"@,
        match c.output_dir_setting() {
            Some(d) => Some(path_text(d)),
            None => None,
        },
    ) + setting_line("Author"@, opt_view(c.author_setting())) + if repos.len() > 0 {
        seq![ConfigLine::Heading("Repos"@)] + Seq::new(
            repos.len(),
            |i: int| ConfigLine::Repo(repos[i].name@, repos[i].url@, status_text(installed[i])),
        )
    } else {
        Seq::empty()
    } + if locals.len() > 0 {
        seq![ConfigLine::Heading("Local sources"@)] + Seq::new(
            locals.len(),
            |i: int| ConfigLine::Local(path_text(locals[i].path)),
        )
    } else {
        Seq::empty()
    }
}

/// `out` holds the messages for `lines`, after `done` messages.
pub open spec fn shows(out: Seq<CliMessage>, lines: Seq<ConfigLine>) -> bool {
    &&& out.len() == lines.len()
    &&& forall|k: int| 0 <= k < lines.len() ==> renders(#[trigger] out[k], lines[k])
}

/// Messages appended for further lines keep showing all the lines.
proof fn lemma_shows_extend(
    before: Seq<CliMessage>,
    after: Seq<CliMessage>,
    lines: Seq<ConfigLine>,
    extra: Seq<ConfigLine>,
)
    requires
        before.len() >= 1,
        shows(before.skip(1), lines),
        after.len() == before.len() + extra.len(),
        forall|k: int| 0 <= k < before.len() ==> #[trigger] after[k] == before[k],
        forall|k: int| 0 <= k < extra.len() ==> renders(#[trigger] after[before.len() + k], extra[k]),
    ensures
        shows(after.skip(1), lines + extra),
{
    let all = lines + extra;
    assert forall|k: int| 0 <= k < all.len() implies renders(#[trigger] after.skip(1)[k], all[k]) by {
        if k < lines.len() {
            assert(after.skip(1)[k] == after[k + 1]);
            assert(after[k + 1] == before[k + 1]);
            assert(before.skip(1)[k] == before[k + 1]);
        } else {
            let j = k - lines.len();
            assert(after.skip(1)[k] == after[before.len() + j]);
        }
    }
}

fn setting_message(label: &str, value: &str) -> (m: CliMessage)
    ensures
        renders(m, ConfigLine::Setting(label@, value@)),
{
    let a = paint_bold(label);
    let b = paint_dimmed(value);
    let mut t = chars_of("  ");
    push_str(&mut t, a.as_str());
    push_str(&mut t, ": ");
    push_str(&mut t, b.as_str());
    assert(t@ =~= setting_text(a@, b@));
    CliMessage::Plain(string_of(t.as_slice()))
}

fn heading_message(label: &str) -> (m: CliMessage)
    ensures
        renders(m, ConfigLine::Heading(label@)),
{
    let a = paint_bold(label);
    let mut t = chars_of("\n  ");
    push_str(&mut t, a.as_str());
    push_str(&mut t, ":");
    assert(t@ =~= heading_text(a@));
    CliMessage::Plain(string_of(t.as_slice()))
}

fn repo_message(name: &str, url: &str, installed: bool) -> (m: CliMessage)
    ensures
        renders(m, ConfigLine::Repo(name@, url@, status_text(installed))),
{
    let a = paint_bold(name);
    let b = paint_dimmed(url);
    let status = if installed { "installed" } else { "not installed" };
    let c = paint_dimmed(status);
    let mut t = chars_of("    ");
    push_str(&mut t, a.as_str());
    push_str(&mut t, " -- ");
    push_str(&mut t, b.as_str());
    push_str(&mut t, " (");
    push_str(&mut t, c.as_str());
    push_str(&mut t, ")");
    assert(t@ =~= repo_line_text(a@, b@, c@));
    CliMessage::Plain(string_of(t.as_slice()))
}

fn local_message(path: &str) -> (m: CliMessage)
    ensures
        renders(m, ConfigLine::Local(path@)),
{
    let a = paint_dimmed(path);
    let mut t = chars_of("    ");
    push_str(&mut t, a.as_str());
    assert(t@ =~= local_line_text(a@));
    CliMessage::Plain(string_of(t.as_slice()))
}

/// Appends the setting line for `label` when `value` is set.
fn push_setting(out: &mut Vec<CliMessage>, label: &str, value: Option<&str>)
    ensures
        final(out)@.len() == old(out)@.len() + setting_line(label@, opt_str_view(value)).len(),
        forall|k: int| 0 <= k < old(out)@.len() ==> #[trigger] final(out)@[k] == old(out)@[k],
        forall|k: int| 0 <= k < setting_line(label@, opt_str_view(value)).len() ==> renders(
            #[trigger] final(out)@[old(out)@.len() + k],
            setting_line(label@, opt_str_view(value))[k],
        ),
{
    match value {
        Some(v) => {
            out.push(setting_message(label, v));
        },
        None => {},
    }
}

impl AppController {
    /// What showing the configuration prints: the heading `Current
    /// configuration:`, then the lines of `config_lines`, where
    /// `installed[i]` tells whether repository `i` is cloned.
    pub fn show_config(&self, installed: &[bool]) -> (r: Vec<CliMessage>)
        requires
            installed@.len() == self.config_of().repo_list().len(),
        ensures
            r@.len() >= 1,
            r@[0] matches CliMessage::Info(t) && t@ == "Current configuration:"@,
            shows(r@.skip(1), config_lines(self.config_of(), installed@)),
    {
        let ghost c = self.config_of();
        let mut r: Vec<CliMessage> = Vec::new();
        r.push(CliMessage::Info(String::from_str("Current configuration:")));
        let ghost mut lines: Seq<ConfigLine> = Seq::empty();
        let ghost first = r@[0];
        assert(first matches CliMessage::Info(t) && t@ == "Current configuration:"@);
        assert(shows(r@.skip(1), lines));
        let config = self.config();

        let ghost before = r@;
        push_setting(&mut r, "Default template", config.default_template());
        proof {
            let extra = setting_line("Default template"@, opt_view(c.template_setting()));
            lemma_shows_extend(before, r@, lines, extra);
            lines = lines + extra;
        }
        let ghost before = r@;
        push_setting(&mut r, "Default brand", config.default_brand());
        proof {
            let extra = setting_line("Default brand"@, opt_view(c.brand_setting()));
            lemma_shows_extend(before, r@, lines, extra);
            lines = lines + extra;
        }
        let shown_dir = match config.output_dir() {
            Some(d) => Some(path_display(d)),
            None => None,
        };
        let dir_text: Option<&str> = match &shown_dir {
            Some(d) => Some(d.as_str()),
            None => None,
        };
        let ghost before = r@;
        push_setting(&mut r, "Output dir", dir_text);
        proof {
            let extra = setting_line(
                "Output dir"@,
                match c.output_dir_setting() {
                    Some(d) => Some(path_text(d)),
                    None => None,
                },
            );
            assert(opt_str_view(dir_text) == match c.output_dir_setting() {
                Some(d) => Some(path_text(d)),
                None => None::<Seq<char>>,
            });
            lemma_shows_extend(before, r@, lines, extra);
            lines = lines + extra;
        }
        let ghost before = r@;
        push_setting(&mut r, "Author", config.author());
        proof {
            let extra = setting_line("Author"@, opt_view(c.author_setting()));
            lemma_shows_extend(before, r@, lines, extra);
            lines = lines + extra;
        }
        let ghost settings = lines;

        let repos = config.repos();
        if repos.len() > 0 {
            let ghost before = r@;
            r.push(heading_message("Repos"));
            proof {
                let extra = seq![ConfigLine::Heading("Repos"@)];
                lemma_shows_extend(before, r@, lines, extra);
                lines = lines + extra;
            }
            let ghost head = lines;
            let mut i: usize = 0;
            while i < repos.len()
                invariant
                    i <= repos.len(),
                    repos@ == c.repo_list(),
                    installed@.len() == repos@.len(),
                    r@.len() >= 1,
                    r@[0] == first,
                    lines == head + Seq::new(
                        i as nat,
                        |k: int| ConfigLine::Repo(repos@[k].name@, repos@[k].url@, status_text(installed@[k])),
                    ),
                    shows(r@.skip(1), lines),
                decreases repos.len() - i,
            {
                let ghost before = r@;
                r.push(repo_message(repos[i].name.as_str(), repos[i].url.as_str(), installed[i]));
                proof {
                    let extra = seq![ConfigLine::Repo(repos@[i as int].name@, repos@[i as int].url@, status_text(installed@[i as int]))];
                    lemma_shows_extend(before, r@, lines, extra);
                    lines = lines + extra;
                    assert(lines =~= head + Seq::new(
                        (i + 1) as nat,
                        |k: int| ConfigLine::Repo(repos@[k].name@, repos@[k].url@, status_text(installed@[k])),
                    ));
                }
                i = i + 1;
            }
        }
        let ghost with_repos = lines;
        assert(with_repos =~= settings + if c.repo_list().len() > 0 {
            seq![ConfigLine::Heading("Repos"@)] + Seq::new(
                c.repo_list().len(),
                |i: int| ConfigLine::Repo(c.repo_list()[i].name@, c.repo_list()[i].url@, status_text(installed@[i])),
            )
        } else {
            Seq::empty()
        });

        let locals = config.local();
        if locals.len() > 0 {
            let ghost before = r@;
            r.push(heading_message("Local sources"));
            proof {
                let extra = seq![ConfigLine::Heading("Local sources"@)];
                lemma_shows_extend(before, r@, lines, extra);
                lines = lines + extra;
            }
            let ghost head = lines;
            let mut i: usize = 0;
            while i < locals.len()
                invariant
                    i <= locals.len(),
                    locals@ == c.local_list(),
                    r@.len() >= 1,
                    r@[0] == first,
                    lines == head + Seq::new(i as nat, |k: int| ConfigLine::Local(path_text(locals@[k].path))),
                    shows(r@.skip(1), lines),
                decreases locals.len() - i,
            {
                let ghost before = r@;
                let shown = path_display(&locals[i].path);
                r.push(local_message(shown.as_str()));
                proof {
                    let extra = seq![ConfigLine::Local(path_text(locals@[i as int].path))];
                    lemma_shows_extend(before, r@, lines, extra);
                    lines = lines + extra;
                    assert(lines =~= head + Seq::new((i + 1) as nat, |k: int| ConfigLine::Local(path_text(locals@[k].path))));
                }
                i = i + 1;
            }
        }
        assert(lines =~= config_lines(c, installed@));
        assert(r@[0] == first);
        r
    }
}


// ---------------------------------------------------------------------------
// Sources, repositories, setup and removal
// ---------------------------------------------------------------------------

/// The config entry for a repository.
pub open spec fn repo_entry(name: Seq<char>, url: Seq<char>) -> Seq<char> {
    "\n[[repos]]\nname = \""@ + name + "\"\nurl = \""@ + url + "\"\n"@
}

/// The config entry for a local directory.
pub open spec fn local_entry(path: Seq<char>) -> Seq<char> {
    "\n[[local]]\npath = \""@ + path + "\"\n"@
}

/// Some configured repository is named `name`.
pub open spec fn has_repo_named(c: Config, name: Seq<char>) -> bool {
    exists|i: int| 0 <= i < c.repo_list().len() && #[trigger] c.repo_list()[i].name@ == name
}

/// The global configuration written by `init`.
pub open spec fn default_config_spec() -> Seq<char> {
    "# md-docs global configuration\n\n# default_template = \"resume-2-col\"\n# default_brand = \"generic\"\n# author = \"Your Name\"\n\n[[repos]]\nname = \""@
        + DEFAULT_REPO_NAME@ + "\"\nurl = \""@ + DEFAULT_REPO_URL@ + "\"\n"@
}

impl AppController {
    /// Adding a template source: for a git URI, the config entry to append
    /// and the message to show, or why it cannot be added (no name can be
    /// derived, or a repository of that name is configured already). A local
    /// directory is `Ok(None)`: it is checked on disk, then handed to
    /// `add_local_source`.
    pub fn add_source(&self, source: &str) -> (r: Result<Option<(String, CliMessage)>, String>)
        ensures
            !is_git_uri_spec(source@) ==> r matches Ok(None),
            is_git_uri_spec(source@) ==> {
                let name = repo_name_spec(source@);
                if name.len() == 0 {
                    r matches Err(m) && m@ == "Could not derive repo name from URI: "@ + source@
                } else if has_repo_named(self.config_of(), name) {
                    r matches Err(m) && m@ == "Repo '"@ + name + "' already exists in config."@
                } else {
                    r matches Ok(Some((entry, msg))) && entry@ == repo_entry(name, source@)
                        && (msg matches CliMessage::Success(t) && t@ == "Added repo '"@ + name + "' ("@ + source@
                        + "). Run 'md-docs templates install "@ + name + "' to clone it."@)
                }
            },
    {
        if !is_git_uri(source) {
            return Ok(None);
        }
        let name = repo_name_from_uri(source)?;
        let repos = self.config().repos();
        let target = chars_of(name.as_str());
        let mut i: usize = 0;
        while i < repos.len()
            invariant
                i <= repos.len(),
                repos@ == self.config_of().repo_list(),
                target@ == name@,
                is_git_uri_spec(source@),
                name@ == repo_name_spec(source@),
                name@.len() > 0,
                forall|j: int| 0 <= j < i ==> repos@[j].name@ != name@,
            decreases repos.len() - i,
        {
            let candidate = chars_of(repos[i].name.as_str());
            if crate::text::chars_eq(candidate.as_slice(), target.as_slice()) {
                assert(self.config_of().repo_list()[i as int].name@ == name@);
                return Err(cat3("Repo '", name.as_str(), "' already exists in config."));
            }
            i = i + 1;
        }
        let entry = cat5("\n[[repos]]\nname = \"", name.as_str(), "\"\nurl = \"", source, "\"\n");
        let msg = cat7("Added repo '", name.as_str(), "' (", source, "). Run 'md-docs templates install ", name.as_str(), "' to clone it.");
        assert(entry@ =~= repo_entry(name@, source@));
        assert(msg@ =~= "Added repo '"@ + name@ + "' ("@ + source@ + "). Run 'md-docs templates install "@ + name@
            + "' to clone it."@);
        Ok(Some((entry, CliMessage::Success(msg))))
    }

    /// Adding the local directory `source`: `canonical` is its canonical path
    /// when it is a directory (`None` when it is not), and `duplicate` tells
    /// whether a configured local source has that canonical path. The config
    /// entry to append and the message to show, or why it cannot be added.
    pub fn add_local_source(source: &str, canonical: Option<&PathBuf>, duplicate: bool) -> (r: Result<(String, CliMessage), String>)
        ensures
            match canonical {
                None => r matches Err(m) && m@ == "Directory '"@ + source@ + "' does not exist."@,
                Some(c) => if duplicate {
                    r matches Err(m) && m@ == "Local source '"@ + path_text(*c) + "' already exists in config."@
                } else {
                    r matches Ok((entry, msg)) && entry@ == local_entry(path_text(*c))
                        && (msg matches CliMessage::Success(t) && t@ == "Added local source '"@ + path_text(*c) + "'."@)
                },
            },
    {
        match canonical {
            None => Err(cat3("Directory '", source, "' does not exist.")),
            Some(c) => {
                let shown = path_display(c);
                if duplicate {
                    return Err(cat3("Local source '", shown.as_str(), "' already exists in config."));
                }
                let entry = cat3("\n[[local]]\npath = \"", shown.as_str(), "\"\n");
                let msg = cat3("Added local source '", shown.as_str(), "'.");
                assert(entry@ =~= local_entry(path_text(*c)));
                Ok((entry, CliMessage::Success(msg)))
            },
        }
    }

    /// Installing repositories: an error when none is configured, else what
    /// is shown before (`Installing repo '<name>'...`, or all) and after.
    pub fn install_templates(&self, name: Option<String>) -> (r: Result<(CliMessage, CliMessage), String>)
        ensures
            self.config_of().repo_list().len() == 0 ==> (r matches Err(m)
                && m@ == "No repos configured. Add [[repos]] to your config."@),
            self.config_of().repo_list().len() > 0 ==> (r matches Ok((before, after)) && (match name {
                Some(n) => before matches CliMessage::Info(t) && t@ == "Installing repo '"@ + n@ + "'..."@,
                None => before matches CliMessage::Info(t) && t@ == "Installing all configured repos..."@,
            }) && (after matches CliMessage::Success(t) && t@ == "Repos installed successfully."@)),
    {
        if self.config().repos().len() == 0 {
            return Err(String::from_str("No repos configured. Add [[repos]] to your config."));
        }
        let before = match &name {
            Some(n) => CliMessage::Info(cat3("Installing repo '", n.as_str(), "'...")),
            None => CliMessage::Info(String::from_str("Installing all configured repos...")),
        };
        Ok((before, CliMessage::Success(String::from_str("Repos installed successfully."))))
    }

    /// Updating repositories: what is shown before (`Updating repo
    /// '<name>'...`, or all) and after.
    pub fn update_templates(&self, name: Option<String>) -> (r: (CliMessage, CliMessage))
        ensures
            match name {
                Some(n) => r.0 matches CliMessage::Info(t) && t@ == "Updating repo '"@ + n@ + "'..."@,
                None => r.0 matches CliMessage::Info(t) && t@ == "Updating all configured repos..."@,
            },
            r.1 matches CliMessage::Success(t) && t@ == "Repos updated successfully."@,
    {
        let before = match &name {
            Some(n) => CliMessage::Info(cat3("Updating repo '", n.as_str(), "'...")),
            None => CliMessage::Info(String::from_str("Updating all configured repos...")),
        };
        (before, CliMessage::Success(String::from_str("Repos updated successfully.")))
    }

    /// The global configuration that `init` writes: commented examples and
    /// the default template repository.
    pub fn default_config_text() -> (s: String)
        ensures
            s@ == default_config_spec(),
    {
        let s = cat5("# md-docs global configuration\n\n# default_template = \"resume-2-col\"\n# default_brand = \"generic\"\n# author = \"Your Name\"\n\n[[repos]]\nname = \"", DEFAULT_REPO_NAME, "\"\nurl = \"", DEFAULT_REPO_URL, "\"\n");
        assert(s@ =~= default_config_spec());
        s
    }

    /// The starter file of `template` and the name the new document gets
    /// (`name` when given, else the starter's own), or the error when the
    /// template has no starter file.
    pub fn starter_plan(template: &Template, template_name: &str, name: Option<&str>) -> (r: Result<(String, String), String>)
        ensures
            match template.metadata.starter_file {
                None => r matches Err(m) && m@ == "Template '"@ + template_name@ + "' does not include a starter file."@,
                Some(f) => r matches Ok((starter, target)) && starter@ == f@
                    && target@ == match name { Some(n) => n@, None => f@ },
            },
    {
        match &template.metadata.starter_file {
            None => Err(cat3("Template '", template_name, "' does not include a starter file.")),
            Some(f) => {
                let target = match name {
                    Some(n) => String::from_str(n),
                    None => f.clone(),
                };
                Ok((f.clone(), target))
            },
        }
    }

    /// Whether the answer typed at the uninstall prompt confirms it: the line
    /// is `confirm`, apart from surrounding whitespace.
    pub fn is_uninstall_confirmed(answer: &str) -> (b: bool)
        ensures
            b == (crate::text::trim(answer@) == "confirm"@),
    {
        let t = crate::text::trim_chars(chars_of(answer).as_slice());
        let expected = chars_of("confirm");
        crate::text::chars_eq(t.as_slice(), expected.as_slice())
    }

    /// What uninstalling removes, in order: the config directory and the data
    /// directory when they exist, then the binary.
    pub fn uninstall_items(config_dir: PathBuf, config_exists: bool, data_dir: PathBuf, data_exists: bool, binary: PathBuf) -> (items: Vec<PathBuf>)
        ensures
            items@ == (if config_exists { seq![config_dir] } else { Seq::empty() })
                + (if data_exists { seq![data_dir] } else { Seq::empty() }) + seq![binary],
    {
        let mut items: Vec<PathBuf> = Vec::new();
        if config_exists {
            items.push(config_dir);
        }
        if data_exists {
            items.push(data_dir);
        }
        items.push(binary);
        assert(items@ =~= (if config_exists { seq![config_dir] } else { Seq::empty() })
            + (if data_exists { seq![data_dir] } else { Seq::empty() }) + seq![binary]);
        items
    }
}

} // verus!
