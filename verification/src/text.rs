//! Character-sequence utilities: search, replace, split and trim with the
//! semantics of the corresponding `str` methods, stated over `Seq<char>`.

use vstd::prelude::*;

verus! {

broadcast use vstd::string::group_string_axioms;

/// Appends one character to a `String` (`String::push`).
#[verifier::external_body]
pub(crate) fn push_char(s: &mut String, c: char)
    ensures
        final(s)@ == old(s)@.push(c),
{
    s.push(c);
}

/// The characters of a string slice, in order.
pub fn chars_of(s: &str) -> (v: Vec<char>)
    ensures
        v@ == s@,
{
    let mut v: Vec<char> = Vec::new();
    for c in it: s.chars()
        invariant
            v@ == it.seq().take(it.index() as int),
    {
        v.push(c);
    }
    v
}


/// The `String` whose characters are `v`.
pub fn string_of(v: &[char]) -> (s: String)
    ensures
        s@ == v@,
{
    let mut s = String::new();
    let mut i: usize = 0;
    while i < v.len()
        invariant
            i <= v.len(),
            s@ == v@.take(i as int),
        decreases v.len() - i,
    {
        push_char(&mut s, v[i]);
        i = i + 1;
        assert(s@ =~= v@.take(i as int));
    }
    assert(v@.take(v.len() as int) =~= v@);
    s
}

/// Appends the characters of `tail` to `out`.
pub fn append_chars(out: &mut Vec<char>, tail: &[char])
    ensures
        final(out)@ == old(out)@ + tail@,
{
    let ghost start = out@;
    let mut i: usize = 0;
    while i < tail.len()
        invariant
            i <= tail.len(),
            out@ == start + tail@.take(i as int),
        decreases tail.len() - i,
    {
        out.push(tail[i]);
        i = i + 1;
        assert(out@ =~= start + tail@.take(i as int));
    }
    assert(tail@.take(tail.len() as int) =~= tail@);
}

/// Whether `p` occurs in `s` starting at position `i`.
pub open spec fn is_match_at(s: Seq<char>, p: Seq<char>, i: int) -> bool {
    &&& 0 <= i
    &&& i + p.len() <= s.len()
    &&& s.subrange(i, i + p.len()) == p
}

/// Position of the leftmost occurrence of `p` in `s` at or after `start`
/// (the semantics of `str::find`, counted in characters).
pub open spec fn find_from(s: Seq<char>, p: Seq<char>, start: int) -> Option<int>
    decreases s.len() + 1 - start,
{
    if start < 0 || start > s.len() || start + p.len() > s.len() {
        None
    } else if is_match_at(s, p, start) {
        Some(start)
    } else {
        find_from(s, p, start + 1)
    }
}

/// Position of the leftmost occurrence of `p` in `s`.
pub open spec fn find(s: Seq<char>, p: Seq<char>) -> Option<int> {
    find_from(s, p, 0)
}

/// `s` contains `p` as a contiguous piece.
pub open spec fn contains(s: Seq<char>, p: Seq<char>) -> bool {
    exists|i: int| is_match_at(s, p, i)
}

/// `s` begins with `p`.
pub open spec fn starts_with(s: Seq<char>, p: Seq<char>) -> bool {
    p.len() <= s.len() && s.take(p.len() as int) == p
}

/// `s` ends with `p`.
pub open spec fn ends_with(s: Seq<char>, p: Seq<char>) -> bool {
    p.len() <= s.len() && s.skip(s.len() - p.len()) == p
}

/// The result of `find_from` is the leftmost match at or after `start`.
pub proof fn lemma_find_from(s: Seq<char>, p: Seq<char>, start: int)
    requires
        0 <= start,
    ensures
        find_from(s, p, start) matches Some(i) ==> {
            &&& start <= i
            &&& is_match_at(s, p, i)
            &&& forall|j: int| start <= j < i ==> !is_match_at(s, p, j)
        },
        find_from(s, p, start) is None ==> forall|j: int| start <= j ==> !is_match_at(s, p, j),
    decreases s.len() + 1 - start,
{
    if start > s.len() || start + p.len() > s.len() {
    } else if is_match_at(s, p, start) {
    } else {
        lemma_find_from(s, p, start + 1);
        assert forall|j: int| start <= j && (find_from(s, p, start) is None || j < find_from(s, p, start)->0)
            implies !is_match_at(s, p, j) by {
            if j > start {
            }
        }
    }
}

/// Whether `p` occurs in `s` at position `i` (exec).
pub fn match_at(s: &[char], p: &[char], i: usize) -> (b: bool)
    ensures
        b == is_match_at(s@, p@, i as int),
{
    if i > s.len() || p.len() > s.len() - i {
        return false;
    }
    let mut k: usize = 0;
    while k < p.len()
        invariant
            i + p.len() <= s.len(),
            k <= p.len(),
            forall|j: int| 0 <= j < k ==> s@[i + j] == p@[j],
        decreases p.len() - k,
    {
        if s[i + k] != p[k] {
            assert(s@.subrange(i as int, i + p.len())[k as int] != p@[k as int]);
            return false;
        }
        k = k + 1;
    }
    assert(s@.subrange(i as int, i + p.len()) =~= p@);
    true
}

/// Leftmost occurrence of `p` in `s` (exec `str::find`).
pub fn find_chars(s: &[char], p: &[char]) -> (r: Option<usize>)
    ensures
        r matches Some(i) ==> find(s@, p@) == Some(i as int),
        r is None ==> find(s@, p@) is None,
{
    if p.len() == 0 {
        assert(is_match_at(s@, p@, 0)) by {
            assert(s@.subrange(0, 0) =~= p@);
        }
        return Some(0);
    }
    if p.len() > s.len() {
        return None;
    }
    let last = s.len() - p.len();
    let mut i: usize = 0;
    while i <= last
        invariant
            last + p.len() == s.len(),
            p.len() > 0,
            i <= last + 1,
            find(s@, p@) == find_from(s@, p@, i as int),
        decreases last + 1 - i,
    {
        if match_at(s, p, i) {
            return Some(i);
        }
        i = i + 1;
    }
    None
}


/// Replacement of every non-overlapping occurrence of a non-empty `p` in `s`,
/// scanning left to right from position `start`.
pub open spec fn replace_from(s: Seq<char>, p: Seq<char>, r: Seq<char>, start: int) -> Seq<char>
    decreases s.len() + 1 - start,
{
    if start < 0 || start >= s.len() {
        Seq::empty()
    } else if p.len() > 0 && is_match_at(s, p, start) {
        r + replace_from(s, p, r, start + p.len())
    } else {
        seq![s[start]] + replace_from(s, p, r, start + 1)
    }
}

/// `r` before, between and after every character of `s` (replacing the empty pattern).
pub open spec fn interleave(s: Seq<char>, r: Seq<char>) -> Seq<char>
    decreases s.len(),
{
    if s.len() == 0 {
        r
    } else {
        r + seq![s[0]] + interleave(s.drop_first(), r)
    }
}

/// `s` with every occurrence of `p` replaced by `r` (the semantics of `str::replace`).
pub open spec fn replace_all(s: Seq<char>, p: Seq<char>, r: Seq<char>) -> Seq<char> {
    if p.len() == 0 {
        interleave(s, r)
    } else {
        replace_from(s, p, r, 0)
    }
}

/// Every occurrence of `p` in `s` replaced by `r` (exec `str::replace`).
pub fn replace_chars(s: &[char], p: &[char], r: &[char]) -> (out: Vec<char>)
    ensures
        out@ == replace_all(s@, p@, r@),
{
    let mut out: Vec<char> = Vec::new();
    if p.len() == 0 {
        let mut i: usize = 0;
        assert(s@.skip(0) =~= s@);
        assert(out@ + interleave(s@, r@) =~= interleave(s@, r@));
        while i < s.len()
            invariant
                i <= s.len(),
                interleave(s@, r@) == out@ + interleave(s@.skip(i as int), r@),
            decreases s.len() - i,
        {
            let ghost rest = s@.skip(i as int);
            assert(rest.drop_first() =~= s@.skip(i + 1));
            assert(rest[0] == s@[i as int]);
            let ghost old_out = out@;
            append_chars(&mut out, r);
            out.push(s[i]);
            i = i + 1;
            assert(old_out + (r@ + seq![rest[0]] + interleave(s@.skip(i as int), r@))
                =~= out@ + interleave(s@.skip(i as int), r@));
        }
        assert(s@.skip(i as int).len() == 0);
        let ghost before = out@;
        append_chars(&mut out, r);
        assert(before + interleave(s@.skip(i as int), r@) =~= out@);
        return out;
    }
    let mut i: usize = 0;
    assert(out@ + replace_from(s@, p@, r@, 0) =~= replace_from(s@, p@, r@, 0));
    while i < s.len()
        invariant
            i <= s.len(),
            p.len() > 0,
            replace_from(s@, p@, r@, 0) == out@ + replace_from(s@, p@, r@, i as int),
        decreases s.len() - i,
    {
        let ghost old_out = out@;
        if match_at(s, p, i) {
            append_chars(&mut out, r);
            let ghost tail = replace_from(s@, p@, r@, i + p.len());
            assert(old_out + (r@ + tail) =~= out@ + tail);
            i = i + p.len();
        } else {
            out.push(s[i]);
            let ghost tail = replace_from(s@, p@, r@, i + 1);
            assert(old_out + (seq![s@[i as int]] + tail) =~= out@ + tail);
            i = i + 1;
        }
    }
    assert(out@ + replace_from(s@, p@, r@, i as int) =~= out@);
    out
}

/// The pieces of `s` between non-overlapping occurrences of a non-empty `p`:
/// the current piece began at `start` and the scan has reached `pos`.
pub open spec fn split_from(s: Seq<char>, p: Seq<char>, start: int, pos: int) -> Seq<Seq<char>>
    decreases s.len() + 1 - pos,
{
    if pos < 0 || pos >= s.len() {
        seq![s.subrange(start, s.len() as int)]
    } else if p.len() > 0 && is_match_at(s, p, pos) {
        seq![s.subrange(start, pos)] + split_from(s, p, pos + p.len(), pos + p.len())
    } else {
        split_from(s, p, start, pos + 1)
    }
}

/// The pieces of `s` between occurrences of `p` (the semantics of `str::split`
/// with a non-empty string pattern).
pub open spec fn split(s: Seq<char>, p: Seq<char>) -> Seq<Seq<char>> {
    split_from(s, p, 0, 0)
}

/// The number of non-overlapping occurrences of a non-empty `p` in `s` found
/// scanning left to right from position `pos` (the count of `str::matches`).
pub open spec fn count_from(s: Seq<char>, p: Seq<char>, pos: int) -> nat
    decreases s.len() + 1 - pos,
{
    if pos < 0 || pos >= s.len() {
        0
    } else if p.len() > 0 && is_match_at(s, p, pos) {
        1 + count_from(s, p, pos + p.len())
    } else {
        count_from(s, p, pos + 1)
    }
}

/// The number of non-overlapping occurrences of `p` in `s`.
pub open spec fn count_matches(s: Seq<char>, p: Seq<char>) -> nat {
    count_from(s, p, 0)
}

/// Splitting gives one piece more than there are occurrences of the separator.
pub proof fn lemma_split_len(s: Seq<char>, p: Seq<char>)
    ensures
        split(s, p).len() == count_matches(s, p) + 1,
{
    lemma_split_from_len(s, p, 0, 0);
}

proof fn lemma_split_from_len(s: Seq<char>, p: Seq<char>, start: int, pos: int)
    ensures
        split_from(s, p, start, pos).len() == count_from(s, p, pos) + 1,
    decreases s.len() + 1 - pos,
{
    if pos < 0 || pos >= s.len() {
    } else if p.len() > 0 && is_match_at(s, p, pos) {
        lemma_split_from_len(s, p, pos + p.len(), pos + p.len());
    } else {
        lemma_split_from_len(s, p, start, pos + 1);
    }
}

/// The views of a vector of character vectors.
pub open spec fn views(v: Seq<Vec<char>>) -> Seq<Seq<char>> {
    v.map_values(|x: Vec<char>| x@)
}

/// The pieces of `s` between occurrences of the non-empty `p` (exec `str::split`).
pub fn split_chars(s: &[char], p: &[char]) -> (pieces: Vec<Vec<char>>)
    requires
        p.len() > 0,
    ensures
        views(pieces@) == split(s@, p@),
{
    let mut pieces: Vec<Vec<char>> = Vec::new();
    let mut start: usize = 0;
    let mut pos: usize = 0;
    assert(views(pieces@) + split(s@, p@) =~= split(s@, p@));
    while pos < s.len()
        invariant
            start <= pos <= s.len(),
            p.len() > 0,
            split(s@, p@) == views(pieces@) + split_from(s@, p@, start as int, pos as int),
        decreases s.len() - pos,
    {
        if match_at(s, p, pos) {
            let ghost old_pieces = views(pieces@);
            let piece = slice_chars(s, start, pos);
            pieces.push(piece);
            assert(views(pieces@) =~= old_pieces + seq![s@.subrange(start as int, pos as int)]);
            let ghost tail = split_from(s@, p@, pos + p.len(), pos + p.len());
            assert(old_pieces + (seq![s@.subrange(start as int, pos as int)] + tail)
                =~= views(pieces@) + tail);
            pos = pos + p.len();
            start = pos;
        } else {
            pos = pos + 1;
        }
    }
    let ghost old_pieces = views(pieces@);
    let piece = slice_chars(s, start, s.len());
    pieces.push(piece);
    assert(views(pieces@) =~= old_pieces + seq![s@.subrange(start as int, s.len() as int)]);
    pieces
}

/// The characters of `s` from `lo` up to (not including) `hi`.
pub fn slice_chars(s: &[char], lo: usize, hi: usize) -> (v: Vec<char>)
    requires
        lo <= hi <= s.len(),
    ensures
        v@ == s@.subrange(lo as int, hi as int),
{
    let mut v: Vec<char> = Vec::new();
    let mut i: usize = lo;
    while i < hi
        invariant
            lo <= i <= hi <= s.len(),
            v@ == s@.subrange(lo as int, i as int),
        decreases hi - i,
    {
        v.push(s[i]);
        i = i + 1;
        assert(v@ =~= s@.subrange(lo as int, i as int));
    }
    v
}

/// Unicode `White_Space` (the semantics of `char::is_whitespace`).
pub open spec fn is_whitespace(c: char) -> bool {
    ||| c == ' '
    ||| ('\t' <= c && c <= '\r')
    ||| c == '\u{85}'
    ||| c == '\u{a0}'
    ||| c == '\u{1680}'
    ||| ('\u{2000}' <= c && c <= '\u{200a}')
    ||| c == '\u{2028}'
    ||| c == '\u{2029}'
    ||| c == '\u{202f}'
    ||| c == '\u{205f}'
    ||| c == '\u{3000}'
}

/// Whether `c` is whitespace (exec `char::is_whitespace`).
pub fn is_whitespace_char(c: char) -> (b: bool)
    ensures
        b == is_whitespace(c),
{
    c == ' ' || ('\t' <= c && c <= '\r') || c == '\u{85}' || c == '\u{a0}' || c == '\u{1680}'
        || ('\u{2000}' <= c && c <= '\u{200a}') || c == '\u{2028}' || c == '\u{2029}'
        || c == '\u{202f}' || c == '\u{205f}' || c == '\u{3000}'
}

/// Number of whitespace characters at the start of `s`.
pub open spec fn leading_ws(s: Seq<char>) -> int
    decreases s.len(),
{
    if s.len() > 0 && is_whitespace(s[0]) {
        1 + leading_ws(s.drop_first())
    } else {
        0
    }
}

/// Number of whitespace characters at the end of `s`.
pub open spec fn trailing_ws(s: Seq<char>) -> int
    decreases s.len(),
{
    if s.len() > 0 && is_whitespace(s.last()) {
        1 + trailing_ws(s.drop_last())
    } else {
        0
    }
}

/// `s` without leading and trailing whitespace (the semantics of `str::trim`).
pub open spec fn trim(s: Seq<char>) -> Seq<char> {
    let t = s.skip(leading_ws(s));
    t.take(t.len() - trailing_ws(t))
}

proof fn lemma_leading_ws_bounds(s: Seq<char>)
    ensures
        0 <= leading_ws(s) <= s.len(),
    decreases s.len(),
{
    if s.len() > 0 && is_whitespace(s[0]) {
        lemma_leading_ws_bounds(s.drop_first());
    }
}

proof fn lemma_trailing_ws_bounds(s: Seq<char>)
    ensures
        0 <= trailing_ws(s) <= s.len(),
    decreases s.len(),
{
    if s.len() > 0 && is_whitespace(s.last()) {
        lemma_trailing_ws_bounds(s.drop_last());
    }
}

/// `c` is a contiguous piece of `s`.
pub open spec fn is_piece(c: Seq<char>, s: Seq<char>) -> bool {
    exists|a: int, b: int| 0 <= a <= b <= s.len() && c == #[trigger] s.subrange(a, b)
}

/// A piece of a piece of `s` is a piece of `s`.
pub proof fn lemma_piece_of_piece(c: Seq<char>, x: Seq<char>, s: Seq<char>)
    requires
        is_piece(c, x),
        is_piece(x, s),
    ensures
        is_piece(c, s),
{
    let (a, b) = choose|a: int, b: int| 0 <= a <= b <= x.len() && c == #[trigger] x.subrange(a, b);
    let (a2, b2) = choose|a: int, b: int| 0 <= a <= b <= s.len() && x == #[trigger] s.subrange(a, b);
    assert(c =~= s.subrange(a2 + a, a2 + b));
}

/// Trimming keeps a contiguous piece of the text.
pub proof fn lemma_trim_piece(s: Seq<char>)
    ensures
        is_piece(trim(s), s),
{
    lemma_leading_ws_bounds(s);
    let lo = leading_ws(s);
    let t = s.skip(lo);
    lemma_trailing_ws_bounds(t);
    let hi = lo + t.len() - trailing_ws(t);
    assert(trim(s) =~= s.subrange(lo, hi));
}

/// Every piece that splitting yields is a contiguous piece of the text.
pub proof fn lemma_split_pieces(s: Seq<char>, p: Seq<char>)
    ensures
        forall|k: int| 0 <= k < split(s, p).len() ==> is_piece(#[trigger] split(s, p)[k], s),
{
    lemma_split_from_pieces(s, p, 0, 0);
}

proof fn lemma_split_from_pieces(s: Seq<char>, p: Seq<char>, start: int, pos: int)
    requires
        0 <= start <= pos,
        start <= s.len(),
    ensures
        forall|k: int| 0 <= k < split_from(s, p, start, pos).len() ==> is_piece(#[trigger] split_from(s, p, start, pos)[k], s),
    decreases s.len() + 1 - pos,
{
    if pos < 0 || pos >= s.len() {
        let c = s.subrange(start, s.len() as int);
        assert(split_from(s, p, start, pos) == seq![c]);
        assert(is_piece(c, s));
        assert forall|k: int| 0 <= k < split_from(s, p, start, pos).len() implies is_piece(#[trigger] split_from(s, p, start, pos)[k], s) by {
            assert(split_from(s, p, start, pos)[k] == c);
        }
    } else if p.len() > 0 && is_match_at(s, p, pos) {
        let c = s.subrange(start, pos);
        assert(is_piece(c, s));
        lemma_split_from_pieces(s, p, pos + p.len(), pos + p.len());
        let rest = split_from(s, p, pos + p.len(), pos + p.len());
        assert forall|k: int| 0 <= k < split_from(s, p, start, pos).len() implies is_piece(#[trigger] split_from(s, p, start, pos)[k], s) by {
            if k == 0 {
                assert(split_from(s, p, start, pos)[0] == c);
            } else {
                assert(split_from(s, p, start, pos)[k] == rest[k - 1]);
            }
        }
    } else {
        lemma_split_from_pieces(s, p, start, pos + 1);
        assert(split_from(s, p, start, pos) == split_from(s, p, start, pos + 1));
    }
}

/// `s` without leading and trailing whitespace (exec `str::trim`).
pub fn trim_chars(s: &[char]) -> (t: Vec<char>)
    ensures
        t@ == trim(s@),
{
    let mut a: usize = 0;
    assert(s@.skip(0) =~= s@);
    while a < s.len() && is_whitespace_char(s[a])
        invariant
            a <= s.len(),
            leading_ws(s@) == a + leading_ws(s@.skip(a as int)),
        decreases s.len() - a,
    {
        assert(s@.skip(a as int).drop_first() =~= s@.skip(a + 1));
        a = a + 1;
    }
    let ghost u = s@.skip(a as int);
    assert(leading_ws(u) == 0) by {
        if a < s.len() {
            assert(u[0] == s@[a as int]);
        }
    }
    let mut b: usize = s.len();
    proof {
        lemma_trailing_ws_bounds(u);
    }
    while b > a && is_whitespace_char(s[b - 1])
        invariant
            a <= b <= s.len(),
            u == s@.skip(a as int),
            0 <= trailing_ws(s@.subrange(a as int, b as int)),
            trailing_ws(u) == (s.len() - b) + trailing_ws(s@.subrange(a as int, b as int)),
        decreases b - a,
    {
        assert(s@.subrange(a as int, b as int).drop_last() =~= s@.subrange(a as int, b - 1));
        b = b - 1;
        proof {
            lemma_trailing_ws_bounds(s@.subrange(a as int, b as int));
        }
    }
    assert(trailing_ws(s@.subrange(a as int, b as int)) == 0) by {
        if b > a {
            assert(s@.subrange(a as int, b as int).last() == s@[b - 1]);
        }
    }
    assert(u.take(u.len() - trailing_ws(u)) =~= s@.subrange(a as int, b as int));
    slice_chars(s, a, b)
}

/// Whether `s` begins with `p` (exec `str::starts_with`).
pub fn starts_with_chars(s: &[char], p: &[char]) -> (b: bool)
    ensures
        b == starts_with(s@, p@),
{
    let b = match_at(s, p, 0);
    assert(b == starts_with(s@, p@)) by {
        if p@.len() <= s@.len() {
            assert(s@.subrange(0, p@.len() as int) =~= s@.take(p@.len() as int));
        }
    }
    b
}

/// Whether `s` ends with `p` (exec `str::ends_with`).
pub fn ends_with_chars(s: &[char], p: &[char]) -> (b: bool)
    ensures
        b == ends_with(s@, p@),
{
    if p.len() > s.len() {
        return false;
    }
    let b = match_at(s, p, s.len() - p.len());
    assert(s@.subrange(s.len() - p.len(), s.len() as int) =~= s@.skip(s.len() - p.len()));
    b
}


/// The character views of an optional string.
pub open spec fn opt_view(o: Option<String>) -> Option<Seq<char>> {
    match o {
        Some(s) => Some(s@),
        None => None,
    }
}

/// The views of a sequence of strings.
pub open spec fn string_views(v: Seq<String>) -> Seq<Seq<char>> {
    v.map_values(|x: String| x@)
}

/// Converts each character vector to a `String`.
pub fn strings_of(v: &Vec<Vec<char>>) -> (out: Vec<String>)
    ensures
        string_views(out@) == views(v@),
{
    let mut out: Vec<String> = Vec::new();
    let mut i: usize = 0;
    while i < v.len()
        invariant
            i <= v.len(),
            out@.len() == i,
            forall|j: int| 0 <= j < i ==> #[trigger] out@[j]@ == v@[j]@,
        decreases v.len() - i,
    {
        let s = string_of(v[i].as_slice());
        out.push(s);
        i = i + 1;
    }
    assert(string_views(out@) =~= views(v@));
    out
}


/// Appends the characters of `s` to `out`.
pub fn push_str(out: &mut Vec<char>, s: &str)
    ensures
        final(out)@ == old(out)@ + s@,
{
    let cs = chars_of(s);
    append_chars(out, cs.as_slice());
}

/// Whether two character sequences are equal.
pub fn chars_eq(a: &[char], b: &[char]) -> (r: bool)
    ensures
        r == (a@ == b@),
{
    if a.len() != b.len() {
        return false;
    }
    let mut i: usize = 0;
    while i < a.len()
        invariant
            a.len() == b.len(),
            i <= a.len(),
            forall|j: int| 0 <= j < i ==> a@[j] == b@[j],
        decreases a.len() - i,
    {
        if a[i] != b[i] {
            return false;
        }
        i = i + 1;
    }
    assert(a@ =~= b@);
    true
}

/// `s` repeated `n` times.
pub open spec fn repeat(s: Seq<char>, n: nat) -> Seq<char>
    decreases n,
{
    if n == 0 {
        Seq::empty()
    } else {
        repeat(s, (n - 1) as nat) + s
    }
}

/// Appends `s` `n` times.
pub fn push_repeat(out: &mut Vec<char>, s: &str, n: usize)
    ensures
        final(out)@ == old(out)@ + repeat(s@, n as nat),
{
    let ghost start = out@;
    let mut i: usize = 0;
    assert(start + repeat(s@, 0) =~= start);
    while i < n
        invariant
            i <= n,
            out@ == start + repeat(s@, i as nat),
        decreases n - i,
    {
        push_str(out, s);
        i = i + 1;
        assert(out@ =~= start + repeat(s@, i as nat));
    }
}

/// Whether one of `names` is `x`.
pub fn holds_name(names: &Vec<Vec<char>>, x: &[char]) -> (b: bool)
    ensures
        b == views(names@).contains(x@),
{
    let mut i: usize = 0;
    while i < names.len()
        invariant
            i <= names.len(),
            forall|m: int| 0 <= m < i ==> views(names@)[m] != x@,
        decreases names.len() - i,
    {
        if chars_eq(names[i].as_slice(), x) {
            assert(views(names@)[i as int] == x@);
            return true;
        }
        i = i + 1;
    }
    false
}


/// Three pieces of text, concatenated.
pub fn cat3(a: &str, b: &str, c: &str) -> (s: String)
    ensures
        s@ == a@ + b@ + c@,
{
    let mut out = chars_of(a);
    push_str(&mut out, b);
    push_str(&mut out, c);
    string_of(out.as_slice())
}

/// Five pieces of text, concatenated.
pub fn cat5(a: &str, b: &str, c: &str, d: &str, e: &str) -> (s: String)
    ensures
        s@ == a@ + b@ + c@ + d@ + e@,
{
    let mut out = chars_of(a);
    push_str(&mut out, b);
    push_str(&mut out, c);
    push_str(&mut out, d);
    push_str(&mut out, e);
    string_of(out.as_slice())
}

/// Seven pieces of text, concatenated.
pub fn cat7(a: &str, b: &str, c: &str, d: &str, e: &str, f: &str, g: &str) -> (s: String)
    ensures
        s@ == a@ + b@ + c@ + d@ + e@ + f@ + g@,
{
    let mut out = chars_of(a);
    push_str(&mut out, b);
    push_str(&mut out, c);
    push_str(&mut out, d);
    push_str(&mut out, e);
    push_str(&mut out, f);
    push_str(&mut out, g);
    string_of(out.as_slice())
}

} // verus!
