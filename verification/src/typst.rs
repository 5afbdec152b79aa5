//! Typst escaping and the split of converted content into layout sections.

use vstd::prelude::*;
use crate::text::{
    chars_of, count_matches, find, is_piece, lemma_piece_of_piece, lemma_split_len, lemma_split_pieces, lemma_trim_piece, find_chars, is_match_at, lemma_find_from, replace_all, replace_chars, slice_chars, split, split_chars, string_of,
    string_views, strings_of, trim, trim_chars, views,
};

verus! {

/// Characters with a special meaning in Typst markup.
pub open spec fn is_typst_special(c: char) -> bool {
    c == '*' || c == '_' || c == '`' || c == '<' || c == '@' || c == '=' || c == '#' || c == '$'
        || c == '~' || c == '\\' || c == '/' || c == '+' || c == '-'
}

/// `s` with a backslash before every Typst special character.
pub open spec fn escape_spec(s: Seq<char>) -> Seq<char>
    decreases s.len(),
{
    if s.len() == 0 {
        Seq::empty()
    } else {
        escape_spec(s.drop_last()) + if is_typst_special(s.last()) {
            seq!['\\', s.last()]
        } else {
            seq![s.last()]
        }
    }
}

/// Text without special characters is left as it is by escaping.
pub proof fn lemma_escape_plain(s: Seq<char>)
    requires
        forall|i: int| 0 <= i < s.len() ==> !is_typst_special(#[trigger] s[i]),
    ensures
        escape_spec(s) == s,
    decreases s.len(),
{
    if s.len() > 0 {
        lemma_escape_plain(s.drop_last());
        assert(s.drop_last() + seq![s.last()] =~= s);
    }
}

/// Escaping works character by character: escaping two texts one after the
/// other is escaping them joined.
pub proof fn lemma_escape_concat(a: Seq<char>, b: Seq<char>)
    ensures
        escape_spec(a + b) == escape_spec(a) + escape_spec(b),
    decreases b.len(),
{
    if b.len() == 0 {
        assert(a + b =~= a);
        assert(escape_spec(a) + escape_spec(b) =~= escape_spec(a));
    } else {
        lemma_escape_concat(a, b.drop_last());
        assert((a + b).drop_last() =~= a + b.drop_last());
        assert((a + b).last() == b.last());
        let tail = if is_typst_special(b.last()) { seq!['\\', b.last()] } else { seq![b.last()] };
        assert(escape_spec(a) + escape_spec(b.drop_last()) + tail =~= escape_spec(a) + (escape_spec(b.drop_last()) + tail));
    }
}

fn is_typst_special_char(c: char) -> (b: bool)
    ensures
        b == is_typst_special(c),
{
    c == '*' || c == '_' || c == '`' || c == '<' || c == '@' || c == '=' || c == '#' || c == '$'
        || c == '~' || c == '\\' || c == '/' || c == '+' || c == '-'
}

/// Escapes the characters of `s`, appending them to `out`.
pub fn escape_into(out: &mut Vec<char>, s: &[char])
    ensures
        final(out)@ == old(out)@ + escape_spec(s@),
{
    let ghost start = out@;
    let mut i: usize = 0;
    assert(s@.take(0) =~= Seq::<char>::empty());
    assert(start + escape_spec(s@.take(0)) =~= start);
    while i < s.len()
        invariant
            i <= s.len(),
            out@ == start + escape_spec(s@.take(i as int)),
        decreases s.len() - i,
    {
        let c = s[i];
        let ghost before = out@;
        if is_typst_special_char(c) {
            out.push('\\');
        }
        out.push(c);
        i = i + 1;
        assert(s@.take(i as int).drop_last() =~= s@.take(i - 1));
        assert(s@.take(i as int).last() == c);
        assert(out@ =~= start + escape_spec(s@.take(i as int)));
    }
    assert(s@.take(s.len() as int) =~= s@);
}

/// Escapes the Typst special characters `* _ ` < @ = # $ ~ \ / + -` in `text`
/// with a backslash, so that they print literally.
pub fn escape_typst(text: &str) -> (res: String)
    ensures
        res@ == escape_spec(text@),
{
    let chars = chars_of(text);
    let mut out: Vec<char> = Vec::new();
    escape_into(&mut out, chars.as_slice());
    assert(out@ =~= escape_spec(text@));
    string_of(out.as_slice())
}


/// The marker that separates the columns of the body.
pub const COLUMN_BREAK_MARKER: &'static str = "%%COLUMN_BREAK%%";

/// Layout sections of converted Typst content.
#[derive(Debug)]
pub struct ContentSections {
    /// Everything above the split marker, trimmed; empty when there is no marker.
    pub header: String,
    /// Everything below the split marker (all of the content when there is none),
    /// with the column break markers removed.
    pub body: String,
    /// The whole content with the column break markers removed.
    pub content: String,
    /// The body cut at the column break markers, each piece trimmed.
    pub body_columns: Vec<String>,
}

/// The trimmed pieces of `s` between column break markers.
pub open spec fn columns_spec(s: Seq<char>) -> Seq<Seq<char>> {
    split(s, COLUMN_BREAK_MARKER@).map_values(|p: Seq<char>| trim(p))
}

/// `s` without its column break markers.
pub open spec fn strip_breaks(s: Seq<char>) -> Seq<char> {
    replace_all(s, COLUMN_BREAK_MARKER@, Seq::empty())
}

/// What `from_typst_content` yields: (header, body, content, body_columns).
pub open spec fn sections_spec(s: Seq<char>, marker: Seq<char>) -> (Seq<char>, Seq<char>, Seq<char>, Seq<Seq<char>>) {
    match find(s, marker) {
        Some(pos) => {
            let raw_body = trim(s.skip(pos + marker.len()));
            (trim(s.take(pos)), strip_breaks(raw_body), strip_breaks(s), columns_spec(raw_body))
        },
        None => (Seq::empty(), strip_breaks(s), strip_breaks(s), columns_spec(s)),
    }
}

/// Every column is a contiguous piece of `text`, when the columns are cut
/// from a trimmed piece of it.
proof fn lemma_columns_within(raw: Seq<char>, text: Seq<char>)
    requires
        is_piece(raw, text),
    ensures
        forall|i: int| 0 <= i < columns_spec(raw).len() ==> is_piece(#[trigger] columns_spec(raw)[i], text),
{
    lemma_split_pieces(raw, COLUMN_BREAK_MARKER@);
    assert forall|i: int| 0 <= i < columns_spec(raw).len() implies is_piece(#[trigger] columns_spec(raw)[i], text) by {
        let piece = split(raw, COLUMN_BREAK_MARKER@)[i];
        assert(is_piece(piece, raw));
        lemma_trim_piece(piece);
        lemma_piece_of_piece(trim(piece), piece, raw);
        lemma_piece_of_piece(trim(piece), raw, text);
    }
}

/// Where the split marker occurs, the header is cut from the text before its
/// first occurrence and every column from the text after it, so no column
/// holds any of the text above the marker; without the marker the header is
/// empty and the columns are cut from the whole text.
pub proof fn lemma_sections_sides(s: Seq<char>, marker: Seq<char>)
    ensures
        match find(s, marker) {
            Some(pos) => {
                &&& 0 <= pos && pos + marker.len() <= s.len()
                &&& is_piece(sections_spec(s, marker).0, s.take(pos))
                &&& forall|i: int| 0 <= i < sections_spec(s, marker).3.len()
                    ==> is_piece(#[trigger] sections_spec(s, marker).3[i], s.skip(pos + marker.len()))
            },
            None => {
                &&& sections_spec(s, marker).0.len() == 0
                &&& forall|i: int| 0 <= i < sections_spec(s, marker).3.len()
                    ==> is_piece(#[trigger] sections_spec(s, marker).3[i], s)
            },
        },
{
    lemma_find_from(s, marker, 0);
    match find(s, marker) {
        Some(pos) => {
            let after = s.skip(pos + marker.len());
            lemma_trim_piece(s.take(pos));
            lemma_trim_piece(after);
            lemma_columns_within(trim(after), after);
        },
        None => {
            assert(s.subrange(0, s.len() as int) =~= s);
            assert(is_piece(s, s));
            lemma_columns_within(s, s);
        },
    }
}

impl ContentSections {
    /// Empty sections.
    pub fn new() -> (c: Self)
        ensures
            c.header@.len() == 0,
            c.body@.len() == 0,
            c.content@.len() == 0,
            c.body_columns@.len() == 0,
    {
        ContentSections {
            header: String::new(),
            body: String::new(),
            content: String::new(),
            body_columns: Vec::new(),
        }
    }

    /// Splits Typst content at the first `split_marker`: above it is the header,
    /// below it the body. The body is cut into columns at `%%COLUMN_BREAK%%`
    /// markers, which are removed from `body` and `content`.
    pub fn from_typst_content(typst_content: &str, split_marker: &str) -> (c: Self)
        ensures
            (c.header@, c.body@, c.content@, string_views(c.body_columns@))
                == sections_spec(typst_content@, split_marker@),
            find(typst_content@, split_marker@) is None ==> c.body_columns@.len()
                == count_matches(typst_content@, COLUMN_BREAK_MARKER@) + 1,
            c.body_columns@.len() >= 1,
            match find(typst_content@, split_marker@) {
                Some(pos) => forall|i: int| 0 <= i < c.body_columns@.len()
                    ==> is_piece(#[trigger] c.body_columns@[i]@, typst_content@.skip(pos + split_marker@.len())),
                None => forall|i: int| 0 <= i < c.body_columns@.len()
                    ==> is_piece(#[trigger] c.body_columns@[i]@, typst_content@),
            },
    {
        proof {
            lemma_sections_sides(typst_content@, split_marker@);
        }
        let s = chars_of(typst_content);
        let m = chars_of(split_marker);
        let brk = chars_of(COLUMN_BREAK_MARKER);
        proof {
            reveal_strlit("%%COLUMN_BREAK%%");
        }
        assert(brk@.len() > 0);
        let empty: Vec<char> = Vec::new();
        let c = match find_chars(s.as_slice(), m.as_slice()) {
            Some(pos) => {
                proof {
                    lemma_find_from(s@, m@, 0);
                    assert(is_match_at(s@, m@, pos as int));
                }
                let header = trim_chars(slice_chars(s.as_slice(), 0, pos).as_slice());
                let slen = s.len();
                let after = slice_chars(s.as_slice(), pos + m.len(), slen);
                let raw_body = trim_chars(after.as_slice());
                proof {
                    lemma_split_len(raw_body@, brk@);
                }
                let pieces = split_chars(raw_body.as_slice(), brk.as_slice());
                let columns = trim_all(&pieces);
                let body = replace_chars(raw_body.as_slice(), brk.as_slice(), empty.as_slice());
                let content = replace_chars(s.as_slice(), brk.as_slice(), empty.as_slice());
                assert(s@.subrange(0, pos as int) =~= s@.take(pos as int));
                assert(s@.subrange(pos + m@.len(), s@.len() as int) =~= s@.skip(pos + m@.len()));
                let cols = strings_of(&columns);
                assert(string_views(cols@).len() == cols@.len());
                assert(columns_spec(raw_body@).len() == split(raw_body@, brk@).len());
                ContentSections {
                    header: string_of(header.as_slice()),
                    body: string_of(body.as_slice()),
                    content: string_of(content.as_slice()),
                    body_columns: cols,
                }
            },
            None => {
                proof {
                    lemma_split_len(s@, brk@);
                }
                let pieces = split_chars(s.as_slice(), brk.as_slice());
                let columns = trim_all(&pieces);
                let body = replace_chars(s.as_slice(), brk.as_slice(), empty.as_slice());
                let cols = strings_of(&columns);
                assert(string_views(cols@).len() == cols@.len());
                assert(columns_spec(s@).len() == split(s@, brk@).len());
                ContentSections {
                    header: String::new(),
                    body: string_of(body.as_slice()),
                    content: string_of(body.as_slice()),
                    body_columns: cols,
                }
            },
        };
        proof {
            let cols = c.body_columns@;
            assert((c.header@, c.body@, c.content@, string_views(cols)) == sections_spec(typst_content@, split_marker@));
            assert forall|i: int| 0 <= i < cols.len() implies #[trigger] cols[i]@ == sections_spec(typst_content@, split_marker@).3[i] by {
                assert(string_views(cols)[i] == cols[i]@);
            }
        }
        c
    }
}

/// Trims each piece.
fn trim_all(pieces: &Vec<Vec<char>>) -> (out: Vec<Vec<char>>)
    ensures
        views(out@) == views(pieces@).map_values(|p: Seq<char>| trim(p)),
{
    let mut out: Vec<Vec<char>> = Vec::new();
    let mut i: usize = 0;
    while i < pieces.len()
        invariant
            i <= pieces.len(),
            out@.len() == i,
            forall|j: int| 0 <= j < i ==> #[trigger] out@[j]@ == trim(pieces@[j]@),
        decreases pieces.len() - i,
    {
        out.push(trim_chars(pieces[i].as_slice()));
        i = i + 1;
    }
    assert(views(out@) =~= views(pieces@).map_values(|p: Seq<char>| trim(p)));
    out
}

} // verus!
