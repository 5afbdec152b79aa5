//! Template sources: recognizing git repositories, naming them, and the
//! titles that templates and brands without metadata get.

use vstd::prelude::*;
use crate::text::{
    append_chars, chars_of, find, find_chars, is_whitespace, is_whitespace_char,
    replace_all, replace_chars, slice_chars, starts_with, starts_with_chars, string_of,
};

verus! {

/// `source` names a git repository rather than a local directory: it holds
/// `://` or begins with `git@`.
pub open spec fn is_git_uri_spec(source: Seq<char>) -> bool {
    find(source, "://"@) is Some || starts_with(source, "git@"@)
}

/// Whether `source` is a git URI (holds `://` or begins with `git@`).
pub fn is_git_uri(source: &str) -> (b: bool)
    ensures
        b == is_git_uri_spec(source@),
{
    let s = chars_of(source);
    let sep = chars_of("://");
    let at = chars_of("git@");
    find_chars(s.as_slice(), sep.as_slice()).is_some() || starts_with_chars(s.as_slice(), at.as_slice())
}

/// `s` without any number of trailing copies of the non-empty `p`
/// (`str::trim_end_matches`).
pub open spec fn trim_end_all(s: Seq<char>, p: Seq<char>) -> Seq<char>
    decreases s.len(),
{
    if p.len() > 0 && p.len() <= s.len() && s.skip(s.len() - p.len()) == p {
        trim_end_all(s.take(s.len() - p.len()), p)
    } else {
        s
    }
}

/// The part of `s` after its last `/` or `:` (all of `s` when it has
/// neither): the last path component of a URL or of an scp-style
/// `host:path` address.
pub open spec fn last_segment(s: Seq<char>) -> Seq<char>
    decreases s.len(),
{
    if s.len() == 0 {
        s
    } else if s.last() == '/' || s.last() == ':' {
        Seq::empty()
    } else {
        last_segment(s.drop_last()).push(s.last())
    }
}

/// The repository name of a git URI: its last path component (after the last
/// `/` or `:`), once trailing slashes and then trailing `.git` are removed.
pub open spec fn repo_name_spec(uri: Seq<char>) -> Seq<char> {
    last_segment(trim_end_all(trim_end_all(uri, "/"@), ".git"@))
}

fn trim_end_all_chars(s: Vec<char>, p: &[char]) -> (r: Vec<char>)
    requires
        p.len() > 0,
    ensures
        r@ == trim_end_all(s@, p@),
{
    let mut end: usize = s.len();
    assert(s@.take(s.len() as int) =~= s@);
    while end >= p.len() && crate::text::match_at(s.as_slice(), p, end - p.len())
        invariant
            end <= s.len(),
            p.len() > 0,
            trim_end_all(s@, p@) == trim_end_all(s@.take(end as int), p@),
        decreases end,
    {
        let ghost t = s@.take(end as int);
        assert(t.skip(t.len() - p@.len()) =~= s@.subrange(end - p@.len(), end as int));
        assert(t.take(t.len() - p@.len()) =~= s@.take(end - p@.len()));
        end = end - p.len();
    }
    let ghost t = s@.take(end as int);
    assert(end >= p@.len() ==> t.skip(t.len() - p@.len()) =~= s@.subrange(end - p@.len(), end as int));
    slice_chars(s.as_slice(), 0, end)
}

/// The repository name of a git URI: the last path component (after the
/// last `/` or `:`), without trailing slashes and `.git`, so that both
/// `https://host/user/repo.git` and `git@host:repo.git` name `repo`. An empty
/// name is an error, with its message.
pub fn repo_name_from_uri(uri: &str) -> (r: Result<String, String>)
    ensures
        match r {
            Ok(name) => name@ == repo_name_spec(uri@) && name@.len() > 0,
            Err(msg) => repo_name_spec(uri@).len() == 0 && msg@ == "Could not derive repo name from URI: "@ + uri@,
        },
{
    proof {
        reveal_strlit("/");
        reveal_strlit(".git");
    }
    let slash = chars_of("/");
    let dot_git = chars_of(".git");
    let t1 = trim_end_all_chars(chars_of(uri), slash.as_slice());
    let t2 = trim_end_all_chars(t1, dot_git.as_slice());
    let mut start: usize = t2.len();
    assert(t2@.take(t2.len() as int) =~= t2@);
    assert(last_segment(t2@) + t2@.skip(t2.len() as int) =~= last_segment(t2@));
    while start > 0 && t2[start - 1] != '/' && t2[start - 1] != ':'
        invariant
            start <= t2.len(),
            last_segment(t2@) == last_segment(t2@.take(start as int)) + t2@.skip(start as int),
        decreases start,
    {
        let ghost t = t2@.take(start as int);
        assert(t.drop_last() =~= t2@.take(start - 1));
        assert(t2@.skip(start - 1) =~= seq![t.last()] + t2@.skip(start as int));
        assert(last_segment(t2@.take(start - 1)).push(t.last()) + t2@.skip(start as int)
            =~= last_segment(t2@.take(start - 1)) + t2@.skip(start - 1));
        start = start - 1;
    }
    assert(last_segment(t2@.take(start as int)) =~= Seq::<char>::empty());
    assert(t2@.skip(start as int) =~= t2@.subrange(start as int, t2@.len() as int));
    let name = slice_chars(t2.as_slice(), start, t2.len());
    assert(name@ =~= repo_name_spec(uri@));
    if name.len() == 0 {
        let mut msg = String::from_str("Could not derive repo name from URI: ");
        msg.append(uri);
        return Err(msg);
    }
    Ok(string_of(name.as_slice()))
}

/// An scp-style address names the repository after the host's colon.
pub proof fn lemma_scp_repo_name()
    ensures
        repo_name_spec("git@github.com:repo.git"@) == "repo"@,
{
    reveal_strlit("git@github.com:repo.git");
    reveal_strlit("/");
    reveal_strlit(".git");
    reveal_strlit("repo");
    let u = "git@github.com:repo.git"@;
    assert(u.len() == 23);
    assert(u.skip(22)[0] == 't');
    assert(u.skip(22) != "/"@);
    assert(trim_end_all(u, "/"@) == u);
    assert(u.skip(19) =~= ".git"@);
    let t = u.take(19);
    assert(t.skip(15)[0] == 'r');
    assert(t.skip(15) != ".git"@);
    assert(trim_end_all(t, ".git"@) == t);
    assert(trim_end_all(u, ".git"@) == trim_end_all(t, ".git"@));
    let t1 = t.drop_last();
    let t2 = t1.drop_last();
    let t3 = t2.drop_last();
    let t4 = t3.drop_last();
    assert(t.last() == 'o' && t1.last() == 'p' && t2.last() == 'e' && t3.last() == 'r' && t4.last() == ':');
    assert(last_segment(t4) == Seq::<char>::empty());
    assert(last_segment(t3) == last_segment(t4).push('r'));
    assert(last_segment(t2) == last_segment(t3).push('e'));
    assert(last_segment(t1) == last_segment(t2).push('p'));
    assert(last_segment(t) == last_segment(t1).push('o'));
    assert(last_segment(t) =~= "repo"@);
}

// ---------------------------------------------------------------------------
// Titles
// ---------------------------------------------------------------------------

/// The uppercase mapping of a character (`char::to_uppercase`).
pub uninterp spec fn upper_of(c: char) -> Seq<char>;

/// The lowercase mapping of a string (`str::to_lowercase`).
pub uninterp spec fn lower_of(s: Seq<char>) -> Seq<char>;

/// The uppercase form of `c` (`char::to_uppercase`, collected). Unicode case
/// mapping depends on the character alone.
#[verifier::external_body]
fn char_to_upper(c: char) -> (s: String)
    ensures
        s@ == upper_of(c),
{
    c.to_uppercase().to_string()
}

/// The lowercase form of `s` (`str::to_lowercase`). Unicode case mapping
/// depends on the string alone.
#[verifier::external_body]
pub(crate) fn str_to_lower(s: &str) -> (r: String)
    ensures
        r@ == lower_of(s@),
{
    s.to_lowercase()
}

/// The words of `s` (`str::split_whitespace`) from position `i`; a word began
/// at `start` when `start >= 0`.
pub open spec fn words_from(s: Seq<char>, i: int, start: int) -> Seq<Seq<char>>
    decreases s.len() - i,
{
    if i < 0 || i >= s.len() {
        if 0 <= start <= s.len() { seq![s.subrange(start, s.len() as int)] } else { Seq::empty() }
    } else if is_whitespace(s[i]) {
        if 0 <= start <= i {
            seq![s.subrange(start, i)] + words_from(s, i + 1, -1)
        } else {
            words_from(s, i + 1, -1)
        }
    } else {
        words_from(s, i + 1, if start >= 0 { start } else { i })
    }
}

/// The words of `s`: its maximal runs of non-whitespace characters.
pub open spec fn words(s: Seq<char>) -> Seq<Seq<char>> {
    words_from(s, 0, -1)
}

/// A word with its first character uppercased and the rest lowercased.
pub open spec fn capitalized(w: Seq<char>) -> Seq<char> {
    if w.len() == 0 { Seq::empty() } else { upper_of(w[0]) + lower_of(w.drop_first()) }
}

/// The capitalized words of `ws`, joined by single spaces.
pub open spec fn join_capitalized(ws: Seq<Seq<char>>) -> Seq<char>
    decreases ws.len(),
{
    if ws.len() == 0 {
        Seq::empty()
    } else if ws.len() == 1 {
        capitalized(ws[0])
    } else {
        join_capitalized(ws.drop_last()) + " "@ + capitalized(ws.last())
    }
}

/// The title made from a directory name: `-` and `_` become spaces, and each
/// word is capitalized.
pub open spec fn title_case_spec(s: Seq<char>) -> Seq<char> {
    join_capitalized(words(replace_all(replace_all(s, "-"@, " "@), "_"@, " "@)))
}

fn capitalize(w: &[char]) -> (r: Vec<char>)
    ensures
        r@ == capitalized(w@),
{
    if w.len() == 0 {
        return Vec::new();
    }
    let head = char_to_upper(w[0]);
    let rest = slice_chars(w, 1, w.len());
    let lowered = str_to_lower(string_of(rest.as_slice()).as_str());
    let mut r = chars_of(head.as_str());
    let lc = chars_of(lowered.as_str());
    append_chars(&mut r, lc.as_slice());
    assert(rest@ =~= w@.drop_first());
    r
}

/// Converts a hyphen- or underscore-separated name to Title Case
/// (`resume-2-col` becomes `Resume 2 Col`).
pub fn title_case(s: &str) -> (r: String)
    ensures
        r@ == title_case_spec(s@),
{
    proof {
        reveal_strlit("-");
        reveal_strlit("_");
        reveal_strlit(" ");
    }
    let dash = chars_of("-");
    let under = chars_of("_");
    let space = chars_of(" ");
    let a = replace_chars(chars_of(s).as_slice(), dash.as_slice(), space.as_slice());
    let t = replace_chars(a.as_slice(), under.as_slice(), space.as_slice());
    let ghost ws = words(t@);
    let mut out: Vec<char> = Vec::new();
    let mut count: usize = 0;
    let mut i: usize = 0;
    let mut start: usize = 0;
    let mut in_word = false;
    let ghost mut done: Seq<Seq<char>> = Seq::empty();
    while i < t.len()
        invariant
            i <= t.len(),
            in_word ==> start <= i,
            ws == words(t@),
            ws == done + words_from(t@, i as int, if in_word { start as int } else { -1 }),
            out@ == join_capitalized(done),
            count == done.len(),
            done.len() <= i,
            space@ == " "@,
        decreases t.len() - i,
    {
        if is_whitespace_char(t[i]) {
            if in_word {
                let w = slice_chars(t.as_slice(), start, i);
                let cw = capitalize(w.as_slice());
                if count > 0 {
                    append_chars(&mut out, space.as_slice());
                }
                append_chars(&mut out, cw.as_slice());
                proof {
                    let nd = done.push(w@);
                    assert(nd.drop_last() =~= done);
                    if done.len() == 0 {
                        assert(out@ =~= join_capitalized(nd));
                    } else {
                        assert(out@ =~= join_capitalized(nd));
                    }
                    assert(done + (seq![w@] + words_from(t@, i + 1, -1)) =~= nd + words_from(t@, i + 1, -1));
                    done = nd;
                }
                count = count + 1;
                in_word = false;
            }
        } else {
            if !in_word {
                start = i;
                in_word = true;
            }
        }
        i = i + 1;
    }
    if in_word {
        let w = slice_chars(t.as_slice(), start, t.len());
        let cw = capitalize(w.as_slice());
        if count > 0 {
            append_chars(&mut out, space.as_slice());
        }
        append_chars(&mut out, cw.as_slice());
        proof {
            let nd = done.push(w@);
            assert(nd.drop_last() =~= done);
            assert(out@ =~= join_capitalized(nd));
            assert(done + seq![w@] =~= nd);
            done = nd;
        }
    } else {
        assert(done + Seq::<Seq<char>>::empty() =~= done);
    }
    assert(ws == done);
    string_of(out.as_slice())
}

} // verus!
