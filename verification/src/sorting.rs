//! Ordering by name: the code-point order of names and a stable sort of named
//! items.

use vstd::prelude::*;
use crate::text::chars_of;

verus! {

/// `a` comes strictly before `b`: at the first position where they differ,
/// `a` has the smaller code point, or `a` is a proper prefix of `b`. This is
/// the order of `str`'s `<`, since UTF-8 keeps the order of code points.
pub open spec fn name_before(a: Seq<char>, b: Seq<char>) -> bool
    decreases a.len(),
{
    if b.len() == 0 {
        false
    } else if a.len() == 0 {
        true
    } else if a[0] != b[0] {
        (a[0] as int) < (b[0] as int)
    } else {
        name_before(a.drop_first(), b.drop_first())
    }
}

/// Whether `a` comes strictly before `b` in code-point order.
pub fn name_lt(a: &str, b: &str) -> (r: bool)
    ensures
        r == name_before(a@, b@),
{
    let x = chars_of(a);
    let y = chars_of(b);
    let mut i: usize = 0;
    assert(a@.skip(0) =~= a@);
    assert(b@.skip(0) =~= b@);
    while i < x.len() && i < y.len()
        invariant
            i <= x.len(),
            i <= y.len(),
            x@ == a@,
            y@ == b@,
            name_before(a@, b@) == name_before(a@.skip(i as int), b@.skip(i as int)),
        decreases x.len() - i,
    {
        if x[i] != y[i] {
            return x[i] < y[i];
        }
        assert(a@.skip(i as int).drop_first() =~= a@.skip(i + 1));
        assert(b@.skip(i as int).drop_first() =~= b@.skip(i + 1));
        i = i + 1;
    }
    i == x.len() && i < y.len()
}

/// Something with a name to be ordered by.
pub trait Named {
    /// The name.
    spec fn name_key(&self) -> Seq<char>;

    /// The name, as text.
    fn name_text(&self) -> (s: &str)
        ensures
            s@ == self.name_key();
}

/// The names of `s`, in order.
pub open spec fn keys_of<T: Named>(s: Seq<T>) -> Seq<Seq<char>> {
    Seq::new(s.len(), |i: int| s[i].name_key())
}

/// `ord`, a list of positions, with position `k` put before the first
/// position whose key comes after that of `k` (at the end when there is none).
pub open spec fn insert_index(keys: Seq<Seq<char>>, ord: Seq<int>, k: int) -> Seq<int>
    decreases ord.len(),
{
    if ord.len() == 0 {
        seq![k]
    } else if name_before(keys[k], keys[ord[0]]) {
        seq![k] + ord
    } else {
        seq![ord[0]] + insert_index(keys, ord.drop_first(), k)
    }
}

/// The positions `0..n` ordered by their keys by insertion, each taken in
/// turn: equal keys keep their order.
pub open spec fn sorted_order(keys: Seq<Seq<char>>, n: int) -> Seq<int>
    decreases n,
{
    if n <= 0 {
        Seq::empty()
    } else {
        insert_index(keys, sorted_order(keys, n - 1), n - 1)
    }
}

/// The order in which a stable sort by name lists the positions of `keys`.
pub open spec fn by_name_order(keys: Seq<Seq<char>>) -> Seq<int> {
    sorted_order(keys, keys.len() as int)
}

/// Inserting at the first position whose key comes after is `Seq::insert`
/// there.
pub proof fn lemma_insert_index_at(keys: Seq<Seq<char>>, ord: Seq<int>, k: int, p: int)
    requires
        0 <= p <= ord.len(),
        forall|q: int| 0 <= q < p ==> !name_before(keys[k], #[trigger] keys[ord[q]]),
        p < ord.len() ==> name_before(keys[k], keys[ord[p]]),
    ensures
        insert_index(keys, ord, k) == ord.insert(p, k),
    decreases ord.len(),
{
    if ord.len() == 0 {
        assert(ord.insert(p, k) =~= seq![k]);
    } else if p == 0 {
        assert(ord.insert(p, k) =~= seq![k] + ord);
    } else {
        assert(!name_before(keys[k], keys[ord[0]]));
        let rest = ord.drop_first();
        assert forall|q: int| 0 <= q < p - 1 implies !name_before(keys[k], #[trigger] keys[rest[q]]) by {
            assert(rest[q] == ord[q + 1]);
        }
        lemma_insert_index_at(keys, rest, k, p - 1);
        assert(ord.insert(p, k) =~= seq![ord[0]] + rest.insert(p - 1, k));
    }
}

/// Sorts `items` by name, stably: the result lists the items in
/// `by_name_order` of their names.
pub fn sort_by_name<T: Named>(items: Vec<T>) -> (r: Vec<T>)
    ensures
        r@.len() == items@.len(),
        by_name_order(keys_of(items@)).len() == items@.len(),
        forall|m: int| 0 <= m < items@.len() ==> 0 <= #[trigger] by_name_order(keys_of(items@))[m] < items@.len(),
        forall|m: int|
            0 <= m < r@.len() ==> #[trigger] r@[m] == items@[by_name_order(keys_of(items@))[m]],
{
    let ghost orig = items@;
    let ghost keys = keys_of(orig);
    let n = items.len();
    let mut rest = items;
    let mut out: Vec<T> = Vec::new();
    let ghost mut ord: Seq<int> = Seq::empty();
    let mut k: usize = 0;
    assert(orig.skip(0) =~= orig);
    while k < n
        invariant
            k <= n,
            n == orig.len(),
            keys == keys_of(orig),
            rest@ == orig.skip(k as int),
            ord == sorted_order(keys, k as int),
            ord.len() == k,
            out@.len() == k,
            forall|m: int| 0 <= m < k ==> 0 <= #[trigger] ord[m] < k,
            forall|m: int| 0 <= m < k ==> #[trigger] out@[m] == orig[ord[m]],
        decreases n - k,
    {
        let x = rest.remove(0);
        assert(x == orig[k as int]);
        assert(rest@ =~= orig.skip(k + 1));
        let mut p: usize = 0;
        while p < out.len() && !name_lt(x.name_text(), out[p].name_text())
            invariant
                p <= out@.len(),
                out@.len() == k,
                ord.len() == k,
                x == orig[k as int],
                keys == keys_of(orig),
                k < orig.len(),
                forall|m: int| 0 <= m < k ==> 0 <= #[trigger] ord[m] < k,
                forall|m: int| 0 <= m < k ==> #[trigger] out@[m] == orig[ord[m]],
                forall|q: int| 0 <= q < p ==> !name_before(keys[k as int], #[trigger] keys[ord[q]]),
            decreases out@.len() - p,
        {
            assert(keys[ord[p as int]] == out@[p as int].name_key());
            p = p + 1;
        }
        proof {
            if p < out@.len() {
                assert(keys[ord[p as int]] == out@[p as int].name_key());
            }
            lemma_insert_index_at(keys, ord, k as int, p as int);
            let new_ord = ord.insert(p as int, k as int);
            assert forall|m: int| 0 <= m < k + 1 implies 0 <= #[trigger] new_ord[m] < k + 1 by {
                if m < p {
                    assert(new_ord[m] == ord[m]);
                } else if m > p {
                    assert(new_ord[m] == ord[m - 1]);
                }
            }
            ord = new_ord;
        }
        let ghost before_insert = out@;
        out.insert(p, x);
        proof {
            assert forall|m: int| 0 <= m < k + 1 implies #[trigger] out@[m] == orig[ord[m]] by {
                if m < p {
                    assert(out@[m] == before_insert[m]);
                } else if m > p {
                    assert(out@[m] == before_insert[m - 1]);
                }
            }
        }
        k = k + 1;
    }
    out
}


// ---------------------------------------------------------------------------
// The order of names
// ---------------------------------------------------------------------------

/// No name comes before itself.
pub proof fn lemma_name_before_irreflexive(a: Seq<char>)
    ensures
        !name_before(a, a),
    decreases a.len(),
{
    if a.len() > 0 {
        lemma_name_before_irreflexive(a.drop_first());
    }
}

/// Coming before is transitive.
pub proof fn lemma_name_before_transitive(a: Seq<char>, b: Seq<char>, c: Seq<char>)
    requires
        name_before(a, b),
        name_before(b, c),
    ensures
        name_before(a, c),
    decreases a.len(),
{
    if a.len() > 0 && b.len() > 0 && c.len() > 0 && a[0] == b[0] && b[0] == c[0] {
        lemma_name_before_transitive(a.drop_first(), b.drop_first(), c.drop_first());
    }
}

/// Of two different names, one comes before the other.
pub proof fn lemma_name_before_total(a: Seq<char>, b: Seq<char>)
    requires
        a != b,
    ensures
        name_before(a, b) || name_before(b, a),
    decreases a.len(),
{
    if a.len() == 0 {
        assert(b.len() > 0) by {
            if b.len() == 0 {
                assert(a =~= b);
            }
        }
    } else if b.len() == 0 {
    } else if a[0] == b[0] {
        assert(a.drop_first() != b.drop_first()) by {
            if a.drop_first() == b.drop_first() {
                assert(a =~= seq![a[0]] + a.drop_first());
                assert(b =~= seq![b[0]] + b.drop_first());
            }
        }
        lemma_name_before_total(a.drop_first(), b.drop_first());
    } else {
        assert((a[0] as int) != (b[0] as int));
    }
}

/// `ord` lists positions whose keys never decrease.
pub open spec fn keys_ascending(keys: Seq<Seq<char>>, ord: Seq<int>) -> bool {
    forall|i: int, j: int| 0 <= i < j < ord.len() ==> !name_before(#[trigger] keys[ord[j]], #[trigger] keys[ord[i]])
}

/// Positions with equal keys are listed in increasing order.
pub open spec fn ties_in_order(keys: Seq<Seq<char>>, ord: Seq<int>) -> bool {
    forall|i: int, j: int| 0 <= i < j < ord.len() && #[trigger] keys[ord[i]] == #[trigger] keys[ord[j]] ==> ord[i] < ord[j]
}

/// `ord` lists each of the positions `0..n` exactly once.
pub open spec fn is_arrangement(ord: Seq<int>, n: int) -> bool {
    &&& ord.len() == n
    &&& forall|i: int| 0 <= i < ord.len() ==> 0 <= #[trigger] ord[i] < n
    &&& forall|i: int, j: int| 0 <= i < j < ord.len() ==> #[trigger] ord[i] != #[trigger] ord[j]
}

/// Inserting `k` keeps what was listed and adds `k`.
proof fn lemma_insert_index_members(keys: Seq<Seq<char>>, ord: Seq<int>, k: int)
    ensures
        insert_index(keys, ord, k).len() == ord.len() + 1,
        forall|x: int| #[trigger] insert_index(keys, ord, k).contains(x) <==> (ord.contains(x) || x == k),
    decreases ord.len(),
{
    let r = insert_index(keys, ord, k);
    if ord.len() == 0 {
        assert forall|x: int| r.contains(x) <==> (ord.contains(x) || x == k) by {
            if r.contains(x) {
                assert(r[0] == x);
            }
            if x == k {
                assert(r[0] == k);
            }
        }
    } else if name_before(keys[k], keys[ord[0]]) {
        assert forall|x: int| r.contains(x) <==> (ord.contains(x) || x == k) by {
            if r.contains(x) {
                let i = choose|i: int| 0 <= i < r.len() && r[i] == x;
                if i > 0 {
                    assert(ord[i - 1] == x);
                }
            }
            if ord.contains(x) {
                let i = choose|i: int| 0 <= i < ord.len() && ord[i] == x;
                assert(r[i + 1] == x);
            }
            if x == k {
                assert(r[0] == k);
            }
        }
    } else {
        let rest = ord.drop_first();
        lemma_insert_index_members(keys, rest, k);
        let sub = insert_index(keys, rest, k);
        assert forall|x: int| r.contains(x) <==> (ord.contains(x) || x == k) by {
            if r.contains(x) {
                let i = choose|i: int| 0 <= i < r.len() && r[i] == x;
                if i == 0 {
                    assert(ord[0] == x);
                } else {
                    assert(sub[i - 1] == x);
                    assert(sub.contains(x));
                    if rest.contains(x) {
                        let j = choose|j: int| 0 <= j < rest.len() && rest[j] == x;
                        assert(ord[j + 1] == x);
                    }
                }
            }
            if ord.contains(x) {
                let i = choose|i: int| 0 <= i < ord.len() && ord[i] == x;
                if i == 0 {
                    assert(r[0] == x);
                } else {
                    assert(rest[i - 1] == x);
                    assert(rest.contains(x));
                    assert(sub.contains(x));
                    let j = choose|j: int| 0 <= j < sub.len() && sub[j] == x;
                    assert(r[j + 1] == x);
                }
            }
            if x == k {
                assert(sub.contains(k));
                let j = choose|j: int| 0 <= j < sub.len() && sub[j] == k;
                assert(r[j + 1] == k);
            }
        }
    }
}

/// Inserting `k`, larger than every listed position, into an ascending,
/// tie-ordered list without repeats gives such a list again.
proof fn lemma_insert_index_sorted(keys: Seq<Seq<char>>, ord: Seq<int>, k: int)
    requires
        keys_ascending(keys, ord),
        ties_in_order(keys, ord),
        forall|i: int, j: int| 0 <= i < j < ord.len() ==> #[trigger] ord[i] != #[trigger] ord[j],
        forall|i: int| 0 <= i < ord.len() ==> #[trigger] ord[i] < k,
    ensures
        keys_ascending(keys, insert_index(keys, ord, k)),
        ties_in_order(keys, insert_index(keys, ord, k)),
        forall|i: int, j: int| 0 <= i < j < insert_index(keys, ord, k).len()
            ==> #[trigger] insert_index(keys, ord, k)[i] != #[trigger] insert_index(keys, ord, k)[j],
    decreases ord.len(),
{
    let r = insert_index(keys, ord, k);
    lemma_insert_index_members(keys, ord, k);
    if ord.len() == 0 {
    } else if name_before(keys[k], keys[ord[0]]) {
        assert(r =~= seq![k] + ord);
        assert forall|i: int, j: int| 0 <= i < j < r.len() implies !name_before(#[trigger] keys[r[j]], #[trigger] keys[r[i]]) by {
            if i == 0 {
                if name_before(keys[r[j]], keys[k]) {
                    lemma_name_before_transitive(keys[r[j]], keys[k], keys[ord[0]]);
                    if j - 1 == 0 {
                        lemma_name_before_irreflexive(keys[ord[0]]);
                    } else {
                        assert(!name_before(keys[ord[j - 1]], keys[ord[0]]));
                    }
                }
            } else {
                assert(r[i] == ord[i - 1] && r[j] == ord[j - 1]);
            }
        }
        assert forall|i: int, j: int| 0 <= i < j < r.len() && #[trigger] keys[r[i]] == #[trigger] keys[r[j]] implies r[i] < r[j] by {
            if i == 0 {
                assert(!name_before(keys[ord[j - 1]], keys[ord[0]]));
                if keys[k] == keys[ord[j - 1]] {
                    if j - 1 == 0 {
                        lemma_name_before_irreflexive(keys[k]);
                    }
                }
            } else {
                assert(r[i] == ord[i - 1] && r[j] == ord[j - 1]);
            }
        }
        assert forall|i: int, j: int| 0 <= i < j < r.len() implies #[trigger] r[i] != #[trigger] r[j] by {
            if i == 0 {
                assert(ord[j - 1] < k);
            } else {
                assert(r[i] == ord[i - 1] && r[j] == ord[j - 1]);
            }
        }
    } else {
        let rest = ord.drop_first();
        assert forall|i: int, j: int| 0 <= i < j < rest.len() implies !name_before(#[trigger] keys[rest[j]], #[trigger] keys[rest[i]]) by {
            assert(rest[i] == ord[i + 1] && rest[j] == ord[j + 1]);
        }
        assert forall|i: int, j: int| 0 <= i < j < rest.len() && #[trigger] keys[rest[i]] == #[trigger] keys[rest[j]] implies rest[i] < rest[j] by {
            assert(rest[i] == ord[i + 1] && rest[j] == ord[j + 1]);
        }
        assert forall|i: int, j: int| 0 <= i < j < rest.len() implies #[trigger] rest[i] != #[trigger] rest[j] by {
            assert(rest[i] == ord[i + 1] && rest[j] == ord[j + 1]);
        }
        assert forall|i: int| 0 <= i < rest.len() implies #[trigger] rest[i] < k by {
            assert(rest[i] == ord[i + 1]);
        }
        lemma_insert_index_sorted(keys, rest, k);
        lemma_insert_index_members(keys, rest, k);
        let sub = insert_index(keys, rest, k);
        assert(r =~= seq![ord[0]] + sub);
        // Every element of `sub` is a later element of `ord`, or `k`.
        assert forall|j: int| 0 <= j < sub.len() implies (sub[j] == k || exists|q: int| 1 <= q < ord.len() && ord[q] == #[trigger] sub[j]) by {
            assert(sub.contains(sub[j]));
            if sub[j] != k {
                assert(rest.contains(sub[j]));
                let q = choose|q: int| 0 <= q < rest.len() && rest[q] == sub[j];
                assert(ord[q + 1] == sub[j]);
            }
        }
        assert forall|i: int, j: int| 0 <= i < j < r.len() implies !name_before(#[trigger] keys[r[j]], #[trigger] keys[r[i]]) by {
            if i == 0 {
                assert(r[j] == sub[j - 1]);
                if sub[j - 1] != k {
                    let q = choose|q: int| 1 <= q < ord.len() && ord[q] == sub[j - 1];
                    assert(!name_before(keys[ord[q]], keys[ord[0]]));
                }
            } else {
                assert(r[i] == sub[i - 1] && r[j] == sub[j - 1]);
            }
        }
        assert forall|i: int, j: int| 0 <= i < j < r.len() && #[trigger] keys[r[i]] == #[trigger] keys[r[j]] implies r[i] < r[j] by {
            if i == 0 {
                assert(r[j] == sub[j - 1]);
                if sub[j - 1] != k {
                    let q = choose|q: int| 1 <= q < ord.len() && ord[q] == sub[j - 1];
                    assert(keys[ord[0]] == keys[ord[q]]);
                    assert(ord[0] < ord[q]);
                } else {
                    assert(ord[0] < k);
                }
            } else {
                assert(r[i] == sub[i - 1] && r[j] == sub[j - 1]);
            }
        }
        assert forall|i: int, j: int| 0 <= i < j < r.len() implies #[trigger] r[i] != #[trigger] r[j] by {
            if i == 0 {
                assert(r[j] == sub[j - 1]);
                if sub[j - 1] != k {
                    let q = choose|q: int| 1 <= q < ord.len() && ord[q] == sub[j - 1];
                    assert(ord[0] != ord[q]);
                } else {
                    assert(ord[0] < k);
                }
            } else {
                assert(r[i] == sub[i - 1] && r[j] == sub[j - 1]);
            }
        }
    }
}

/// Sorting by name lists every position once, names never decrease along
/// the list, and positions with equal names keep their order: the sort is a
/// stable sort.
pub proof fn lemma_by_name_order(keys: Seq<Seq<char>>)
    ensures
        is_arrangement(by_name_order(keys), keys.len() as int),
        keys_ascending(keys, by_name_order(keys)),
        ties_in_order(keys, by_name_order(keys)),
{
    lemma_sorted_order(keys, keys.len() as int);
}

/// The first `n` positions, sorted by insertion, are a stable sort of them.
proof fn lemma_sorted_order(keys: Seq<Seq<char>>, n: int)
    requires
        n >= 0,
    ensures
        is_arrangement(sorted_order(keys, n), n),
        keys_ascending(keys, sorted_order(keys, n)),
        ties_in_order(keys, sorted_order(keys, n)),
    decreases n,
{
    if n > 0 {
        lemma_sorted_order(keys, n - 1);
        let prev = sorted_order(keys, n - 1);
        lemma_insert_index_sorted(keys, prev, n - 1);
        lemma_insert_index_members(keys, prev, n - 1);
        let r = sorted_order(keys, n);
        assert forall|i: int| 0 <= i < r.len() implies 0 <= #[trigger] r[i] < n by {
            assert(r.contains(r[i]));
            if r[i] != n - 1 {
                assert(prev.contains(r[i]));
            }
        }
    }
}

} // verus!
