//! Documents and their YAML frontmatter.

use vstd::prelude::*;
use serde_yml::{Mapping, Value};
use crate::domain::MdDocsError;
use crate::strmap::StrMap;
use crate::text::{
    chars_of, ends_with, ends_with_chars, find, find_chars, lemma_find_from,
    opt_view, slice_chars, starts_with, starts_with_chars, string_of,
};
use crate::typst::ContentSections;

verus! {

#[verifier::external_type_specification]
#[verifier::external_body]
pub struct ExYamlValue(Value);

/// One key/value pair of a YAML mapping, as the frontmatter reads it.
#[derive(Debug)]
pub struct YamlEntry {
    /// The key, when it is a plain (untagged) string.
    pub plain_key: Option<String>,
    /// The key's text (`Value::as_str`), also for a tagged string key.
    pub key_text: Option<String>,
    /// The value's text (`Value::as_str`).
    pub text: Option<String>,
    /// The value itself.
    pub value: Value,
}

/// What a YAML entry shows: (plain key, key text, value text, value).
pub open spec fn entry_view(e: YamlEntry) -> (Option<Seq<char>>, Option<Seq<char>>, Option<Seq<char>>, Value) {
    (opt_view(e.plain_key), opt_view(e.key_text), opt_view(e.text), e.value)
}

/// The strings of each entry.
pub open spec fn entry_views(s: Seq<YamlEntry>) -> Seq<(Option<Seq<char>>, Option<Seq<char>>, Option<Seq<char>>, Value)> {
    s.map_values(|e: YamlEntry| entry_view(e))
}

/// The entries of the YAML mapping in `yaml`, in document order (each as the
/// key's plain string and text, the value's text and the value), or the
/// parser's error message.
pub uninterp spec fn yaml_mapping(yaml: Seq<char>) -> Result<Seq<(Option<Seq<char>>, Option<Seq<char>>, Option<Seq<char>>, Value)>, Seq<char>>;

/// Parses `yaml` as a `serde_yml::Mapping` (`serde_yml::from_str`) and hands out
/// its entries in order, or the error's message (`to_string`). The result is
/// named `yaml_mapping` of the text: parsing is deterministic.
#[verifier::external_body]
fn parse_yaml_mapping(yaml: &str) -> (r: Result<Vec<YamlEntry>, String>)
    ensures
        match r {
            Ok(entries) => yaml_mapping(yaml@) == Ok::<_, Seq<char>>(entry_views(entries@)),
            Err(msg) => yaml_mapping(yaml@) == Err::<Seq<(Option<Seq<char>>, Option<Seq<char>>, Option<Seq<char>>, Value)>, _>(msg@),
        },
{
    match serde_yml::from_str::<Mapping>(yaml) {
        Ok(m) => Ok(m.into_iter().map(|(k, v)| yaml_entry(k, v)).collect()),
        Err(e) => Err(e.to_string()),
    }
}

/// The text of a YAML value when it is a string, tagged or not.
pub uninterp spec fn value_str_of(v: Value) -> Option<Seq<char>>;

/// The text of a YAML value when it is a plain (untagged) string.
pub uninterp spec fn plain_string_of(v: Value) -> Option<Seq<char>>;

/// The text of a string value, tagged or not (`Value::as_str`). The result
/// depends on the value alone, and is named `value_str_of` of it.
#[verifier::external_body]
fn value_text(v: &Value) -> (r: Option<String>)
    ensures
        opt_view(r) == value_str_of(*v),
{
    v.as_str().map(|s| s.to_string())
}

/// The text of a plain (untagged) string value (`Value::String`), named
/// `plain_string_of` of the value.
#[verifier::external_body]
fn value_plain_string(v: &Value) -> (r: Option<String>)
    ensures
        opt_view(r) == plain_string_of(*v),
{
    match v {
        Value::String(s) => Some(s.clone()),
        _ => None,
    }
}

/// Reads the strings of one mapping entry: the key as a plain string and as
/// text, the value as text, and the value itself.
fn yaml_entry(key: Value, value: Value) -> (e: YamlEntry)
    ensures
        opt_view(e.plain_key) == plain_string_of(key),
        opt_view(e.key_text) == value_str_of(key),
        opt_view(e.text) == value_str_of(value),
        e.value == value,
{
    YamlEntry {
        plain_key: value_plain_string(&key),
        key_text: value_text(&key),
        text: value_text(&value),
        value,
    }
}

/// Frontmatter metadata. Keys other than `title`, `author` and `date` are kept
/// in `extra` for templates.
#[derive(Debug)]
pub struct Metadata {
    pub title: Option<String>,
    pub author: Option<String>,
    pub date: Option<String>,
    pub extra: StrMap<Value>,
}

impl Metadata {
    /// Metadata with no fields.
    pub fn empty() -> (m: Self)
        ensures
            m.title is None,
            m.author is None,
            m.date is None,
            m.extra@ == Map::<Seq<char>, Value>::empty(),
    {
        Metadata { title: None, author: None, date: None, extra: StrMap::new() }
    }
}

/// A markdown document: frontmatter, body and, once converted, content sections.
#[derive(Debug)]
pub struct Document {
    pub metadata: Metadata,
    pub sections: ContentSections,
    pub raw_body: String,
}

impl Document {
    /// A document with empty sections.
    pub fn new(metadata: Metadata, raw_body: String) -> (d: Self)
        ensures
            d.metadata == metadata,
            d.raw_body == raw_body,
            d.sections.header@.len() == 0,
            d.sections.body@.len() == 0,
            d.sections.content@.len() == 0,
            d.sections.body_columns@.len() == 0,
    {
        Document { metadata, raw_body, sections: ContentSections::new() }
    }
}

/// Where the frontmatter block of `content` ends: the position (after the
/// opening `---\n`) of the `\n---\n` that closes it, or of a final `\n---`.
/// `None` when there is no complete block.
pub open spec fn frontmatter_close(content: Seq<char>) -> Option<int> {
    if !starts_with(content, "---\n"@) {
        None
    } else {
        let after = content.skip(4);
        match find(after, "\n---\n"@) {
            Some(pos) => Some(pos),
            None => if ends_with(after, "\n---"@) {
                Some(after.len() - 3)
            } else {
                None
            },
        }
    }
}

/// The frontmatter block of `content` split into (YAML text, remaining body).
pub open spec fn frontmatter_split(content: Seq<char>) -> Option<(Seq<char>, Seq<char>)> {
    match frontmatter_close(content) {
        None => None,
        Some(close) => {
            let after = content.skip(4);
            let rest = if close + 4 < after.len() {
                after.skip(close + 5)
            } else if ends_with(after, "\n---"@) {
                Seq::empty()
            } else {
                after.skip(close + 4)
            };
            Some((after.take(close), rest))
        },
    }
}

/// The value text of the first entry whose plain key is `key`.
pub open spec fn lookup(entries: Seq<(Option<Seq<char>>, Option<Seq<char>>, Option<Seq<char>>, Value)>, key: Seq<char>) -> Option<Seq<char>>
    decreases entries.len(),
{
    if entries.len() == 0 {
        None
    } else if entries[0].0 == Some(key) {
        entries[0].2
    } else {
        lookup(entries.drop_first(), key)
    }
}

/// Whether a key has a field of its own rather than a place in `extra`.
pub open spec fn is_field_name(k: Seq<char>) -> bool {
    k == "title"@ || k == "author"@ || k == "date"@
}

/// What goes to `extra`: each entry whose key is a string other than `title`,
/// `author` and `date`, in order, so that a later entry with the same key text
/// replaces an earlier one.
pub open spec fn extra_map(entries: Seq<(Option<Seq<char>>, Option<Seq<char>>, Option<Seq<char>>, Value)>) -> Map<Seq<char>, Value>
    decreases entries.len(),
{
    if entries.len() == 0 {
        Map::empty()
    } else {
        let prev = extra_map(entries.drop_last());
        let e = entries.last();
        match e.1 {
            Some(k) => if is_field_name(k) {
                prev
            } else {
                prev.insert(k, e.3)
            },
            None => prev,
        }
    }
}

/// The text of the first entry whose plain key is `key`.
fn lookup_entries(entries: &Vec<YamlEntry>, key: &str) -> (r: Option<String>)
    ensures
        opt_view(r) == lookup(entry_views(entries@), key@),
{
    let ghost views = entry_views(entries@);
    let wanted = String::from_str(key);
    let mut i: usize = 0;
    assert(views.skip(0) =~= views);
    while i < entries.len()
        invariant
            i <= entries.len(),
            views == entry_views(entries@),
            wanted@ == key@,
            lookup(views, key@) == lookup(views.skip(i as int), key@),
        decreases entries.len() - i,
    {
        assert(views.skip(i as int).drop_first() =~= views.skip(i + 1));
        assert(views.skip(i as int)[0] == entry_view(entries@[i as int]));
        let found = match &entries[i].plain_key {
            Some(k) => *k == wanted,
            None => false,
        };
        if found {
            return match &entries[i].text {
                Some(t) => Some(t.clone()),
                None => None,
            };
        }
        i = i + 1;
    }
    None
}

/// Whether `k` is one of the keys with a field of their own.
fn is_field_key(k: &String) -> (b: bool)
    ensures
        b == is_field_name(k@),
{
    let title = String::from_str("title");
    let author = String::from_str("author");
    let date = String::from_str("date");
    *k == title || *k == author || *k == date
}

/// Collects the entries with string keys other than `title`, `author`, `date`.
fn collect_extra(entries: Vec<YamlEntry>) -> (extra: StrMap<Value>)
    ensures
        extra@ == extra_map(entry_views(entries@)),
{
    let ghost views = entry_views(entries@);
    let mut extra: StrMap<Value> = StrMap::new();
    let mut rest = entries;
    let ghost n = views.len();
    assert(views.skip(0) =~= views);
    assert(views.take(0) =~= Seq::empty());
    while rest.len() > 0
        invariant
            views.len() == n,
            entry_views(rest@) == views.skip(n - rest@.len()),
            rest@.len() <= n,
            extra@ == extra_map(views.take(n - rest@.len())),
        decreases rest@.len(),
    {
        let ghost done = n - rest@.len();
        let ghost old_rest = rest@;
        assert(entry_views(old_rest)[0] == views.skip(done)[0]);
        let e = rest.remove(0);
        assert(e == old_rest[0]);
        assert(entry_view(e) == views[done]);
        assert forall|j: int| 0 <= j < rest@.len() implies #[trigger] entry_views(rest@)[j]
            == views.skip(n - rest@.len())[j] by {
            assert(rest@[j] == old_rest[j + 1]);
            assert(entry_views(old_rest)[j + 1] == views.skip(done)[j + 1]);
        }
        assert(entry_views(rest@) =~= views.skip(n - rest@.len()));
        assert(views.take(done + 1).drop_last() =~= views.take(done));
        assert(views.take(done + 1).last() == views[done]);
        match e.key_text {
            Some(k) => {
                if !is_field_key(&k) {
                    extra.insert(k, e.value);
                }
            },
            None => {},
        }
    }
    assert(views.take(n as int) =~= views);
    extra
}

impl Metadata {
    /// Splits YAML frontmatter (between a leading `---` line and a closing `---`
    /// line) from the markdown. Without a complete frontmatter block the metadata
    /// is empty and the body is the whole content; YAML that does not parse as
    /// a mapping is an `InvalidFrontmatter` error.
    pub fn parse_from_content(content: &str) -> (r: Result<(Metadata, String), MdDocsError>)
        ensures
            match frontmatter_split(content@) {
                None => r matches Ok((m, body)) && body@ == content@ && m.title is None
                    && m.author is None && m.date is None && m.extra@ == Map::<Seq<char>, Value>::empty(),
                Some((yaml, rest)) => match yaml_mapping(yaml) {
                    Err(msg) => r matches Err(MdDocsError::InvalidFrontmatter(s)) && s@ == msg,
                    Ok(entries) => r matches Ok((m, body)) && body@ == rest
                        && opt_view(m.title) == lookup(entries, "title"@)
                        && opt_view(m.author) == lookup(entries, "author"@)
                        && opt_view(m.date) == lookup(entries, "date"@)
                        && m.extra@ == extra_map(entries),
                },
            },
    {
        let c = chars_of(content);
        let open = chars_of("---\n");
        if !starts_with_chars(c.as_slice(), open.as_slice()) {
            return Ok((Metadata::empty(), String::from_str(content)));
        }
        proof {
            reveal_strlit("---\n");
        }
        let after = slice_chars(c.as_slice(), 4, c.len());
        assert(after@ =~= c@.skip(4));
        let close_delim = chars_of("\n---\n");
        let end_delim = chars_of("\n---");
        let at_end = ends_with_chars(after.as_slice(), end_delim.as_slice());
        let close: usize = match find_chars(after.as_slice(), close_delim.as_slice()) {
            Some(pos) => pos,
            None => {
                if at_end {
                    proof {
                        reveal_strlit("\n---");
                    }
                    after.len() - 3
                } else {
                    return Ok((Metadata::empty(), String::from_str(content)));
                }
            },
        };
        proof {
            lemma_find_from(after@, close_delim@, 0);
            reveal_strlit("\n---\n");
            reveal_strlit("\n---");
        }
        let rest: Vec<char> = if close + 4 < after.len() {
            slice_chars(after.as_slice(), close + 5, after.len())
        } else if at_end {
            Vec::new()
        } else {
            slice_chars(after.as_slice(), close + 4, after.len())
        };
        assert(close + 4 < after@.len() ==> rest@ =~= after@.skip(close + 5));
        assert(!(close + 4 < after@.len()) && !at_end ==> rest@ =~= after@.skip(close + 4));
        let yaml = slice_chars(after.as_slice(), 0, close);
        assert(yaml@ =~= after@.take(close as int));
        let yaml_text = string_of(yaml.as_slice());
        match parse_yaml_mapping(yaml_text.as_str()) {
            Err(msg) => Err(MdDocsError::InvalidFrontmatter(msg)),
            Ok(entries) => {
                let title = lookup_entries(&entries, "title");
                let author = lookup_entries(&entries, "author");
                let date = lookup_entries(&entries, "date");
                let extra = collect_extra(entries);
                Ok((Metadata { title, author, date, extra }, string_of(rest.as_slice())))
            },
        }
    }
}

} // verus!
