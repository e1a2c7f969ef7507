//! Choosing the best few rows of a table: the rows that qualify, ordered by a
//! key, ties in table order, cut off at a limit.
//!
//! Every "most recent n", "earliest first" and "best first" of the engine is
//! one call of [`rank_indices`].

use vstd::prelude::*;

verus! {

/// Row `a` has a strictly better key than row `b`.
pub open spec fn better(keys: Seq<i64>, descending: bool, a: int, b: int) -> bool {
    if descending {
        keys[a] > keys[b]
    } else {
        keys[a] < keys[b]
    }
}

/// Row `a` comes before row `b`: by key, and among equal keys by position in
/// the table.
pub open spec fn precedes(keys: Seq<i64>, descending: bool, a: int, b: int) -> bool {
    better(keys, descending, a, b) || (keys[a] == keys[b] && a < b)
}

/// `r` ranks the first `upto` rows of the table: it holds qualifying rows
/// only, in order, at most `limit` of them, and a qualifying row is left out
/// only when `r` is full of rows that come before it.
pub open spec fn ranks_prefix(
    keys: Seq<i64>,
    keep: Seq<bool>,
    descending: bool,
    limit: int,
    upto: int,
    r: Seq<usize>,
) -> bool {
    &&& r.len() <= limit
    &&& forall|j: int| 0 <= j < r.len() ==> (#[trigger] r[j]) < upto && keep[r[j] as int]
    &&& forall|j: int, k: int|
        0 <= j < k < r.len() ==> precedes(keys, descending, #[trigger] r[j] as int, #[trigger] r[k] as int)
    &&& forall|i: int|
        0 <= i < upto && #[trigger] keep[i] ==> r.contains(i as usize) || (r.len() == limit
            && forall|j: int|
            0 <= j < r.len() ==> precedes(keys, descending, #[trigger] r[j] as int, i))
}

/// `r` ranks the whole table. There is exactly one such `r` for a table, an
/// order and a limit.
pub open spec fn is_ranking(
    keys: Seq<i64>,
    keep: Seq<bool>,
    descending: bool,
    limit: int,
    r: Seq<usize>,
) -> bool {
    ranks_prefix(keys, keep, descending, limit, keys.len() as int, r)
}

/// Adding row `upto` to a ranking of the rows before it: inserted at `pos`,
/// behind every row that it does not beat, and the last row dropped if the
/// ranking overflows.
proof fn lemma_rank_insert(
    keys: Seq<i64>,
    keep: Seq<bool>,
    descending: bool,
    limit: int,
    upto: int,
    r: Seq<usize>,
    pos: int,
)
    requires
        keys.len() == keep.len(),
        0 <= upto < keys.len(),
        upto <= usize::MAX,
        keep[upto],
        0 < limit,
        ranks_prefix(keys, keep, descending, limit, upto, r),
        0 <= pos <= r.len(),
        forall|j: int| 0 <= j < pos ==> !better(keys, descending, upto, #[trigger] r[j] as int),
        pos < r.len() ==> better(keys, descending, upto, r[pos] as int),
    ensures
        r.len() < limit ==> ranks_prefix(
            keys,
            keep,
            descending,
            limit,
            upto + 1,
            r.insert(pos, upto as usize),
        ),
        r.len() == limit ==> ranks_prefix(
            keys,
            keep,
            descending,
            limit,
            upto + 1,
            r.insert(pos, upto as usize).drop_last(),
        ),
{
    let row = upto as usize;
    let r1 = r.insert(pos, row);
    r.insert_ensures(pos, row);
    // the new row sits between those that precede it and those that it precedes
    assert forall|j: int| 0 <= j < pos implies precedes(keys, descending, #[trigger] r[j] as int, upto) by {
        assert(!better(keys, descending, upto, r[j] as int));
        assert(r[j] < upto);
    }
    assert forall|j: int| pos <= j < r.len() implies better(
        keys,
        descending,
        upto,
        #[trigger] r[j] as int,
    ) by {
        if pos < j {
            assert(precedes(keys, descending, r[pos] as int, r[j] as int));
        }
    }
    assert forall|j: int, k: int| 0 <= j < k < r1.len() implies precedes(
        keys,
        descending,
        #[trigger] r1[j] as int,
        #[trigger] r1[k] as int,
    ) by {
        if k < pos {
            assert(r1[j] == r[j] && r1[k] == r[k]);
        } else if k == pos {
            assert(r1[j] == r[j]);
            assert(precedes(keys, descending, r[j] as int, upto));
        } else if j < pos {
            assert(r1[j] == r[j] && r1[k] == r[k - 1]);
            if j < k - 1 {
                assert(precedes(keys, descending, r[j] as int, r[k - 1] as int));
            }
        } else if j == pos {
            assert(r1[k] == r[k - 1]);
            assert(better(keys, descending, upto, r[k - 1] as int));
        } else {
            assert(r1[j] == r[j - 1] && r1[k] == r[k - 1]);
            assert(precedes(keys, descending, r[j - 1] as int, r[k - 1] as int));
        }
    }
    assert forall|j: int| 0 <= j < r1.len() implies (#[trigger] r1[j]) < upto + 1 && keep[r1[j] as int] by {
        if j < pos {
            assert(r1[j] == r[j]);
        } else if j > pos {
            assert(r1[j] == r[j - 1]);
        }
    }
    // every row of the old ranking is in the new one
    assert forall|x: usize| r.contains(x) implies r1.contains(x) by {
        let p = choose|p: int| 0 <= p < r.len() && r[p] == x;
        if p < pos {
            assert(r1[p] == x);
        } else {
            assert(r1[p + 1] == x);
        }
    }
    assert(r1[pos] == row);
    if r.len() < limit {
        assert forall|i: int| 0 <= i < upto + 1 && #[trigger] keep[i] implies r1.contains(i as usize) || (
        r1.len() == limit && forall|j: int|
            0 <= j < r1.len() ==> precedes(keys, descending, #[trigger] r1[j] as int, i)) by {
            if i < upto {
                assert(r.contains(i as usize));
            }
        }
    } else {
        let r2 = r1.drop_last();
        let last = r1.len() - 1;
        assert(r2.len() == limit);
        assert forall|j: int| 0 <= j < r2.len() implies r2[j] == r1[j] by {}
        assert forall|j: int, k: int| 0 <= j < k < r2.len() implies precedes(
            keys,
            descending,
            #[trigger] r2[j] as int,
            #[trigger] r2[k] as int,
        ) by {
            assert(r2[j] == r1[j] && r2[k] == r1[k]);
        }
        assert forall|j: int| 0 <= j < r2.len() implies (#[trigger] r2[j]) < upto + 1 && keep[r2[j] as int] by {
            assert(r2[j] == r1[j]);
        }
        assert forall|i: int| 0 <= i < upto + 1 && #[trigger] keep[i] implies r2.contains(i as usize) || (
        r2.len() == limit && forall|j: int|
            0 <= j < r2.len() ==> precedes(keys, descending, #[trigger] r2[j] as int, i)) by {
            if r1.contains(i as usize) {
                let p = choose|p: int| 0 <= p < r1.len() && r1[p] == i as usize;
                if p < last {
                    assert(r2[p] == i as usize);
                } else {
                    // the row that was dropped comes after all that stay
                    assert forall|j: int| 0 <= j < r2.len() implies precedes(
                        keys,
                        descending,
                        #[trigger] r2[j] as int,
                        i,
                    ) by {
                        assert(r2[j] == r1[j]);
                        assert(precedes(keys, descending, r1[j] as int, r1[last] as int));
                    }
                }
            } else {
                // it was left out before, and the new row comes before it too
                assert(i < upto);
                assert(!r.contains(i as usize));
                assert forall|j: int| 0 <= j < r2.len() implies precedes(
                    keys,
                    descending,
                    #[trigger] r2[j] as int,
                    i,
                ) by {
                    assert(r2[j] == r1[j]);
                    if j < pos {
                        assert(r1[j] == r[j]);
                    } else if j == pos {
                        assert(precedes(keys, descending, r[pos] as int, i));
                    } else {
                        assert(r1[j] == r[j - 1]);
                    }
                }
            }
        }
    }
}

/// Two rankings of one table are the same ranking.
pub proof fn lemma_ranking_unique(
    keys: Seq<i64>,
    keep: Seq<bool>,
    descending: bool,
    limit: int,
    a: Seq<usize>,
    b: Seq<usize>,
)
    requires
        keys.len() == keep.len(),
        is_ranking(keys, keep, descending, limit, a),
        is_ranking(keys, keep, descending, limit, b),
    ensures
        a =~= b,
{
    lemma_ranking_prefix_agrees(keys, keep, descending, limit, a, b, a.len() as int);
    lemma_ranking_prefix_agrees(keys, keep, descending, limit, b, a, b.len() as int);
    if a.len() < b.len() {
        let x = b[a.len() as int];
        assert(keep[x as int]);
        if a.contains(x) {
            let p = choose|p: int| 0 <= p < a.len() && a[p] == x;
            assert(b[p] == x);
            assert(precedes(keys, descending, b[p] as int, b[a.len() as int] as int));
        }
    } else if b.len() < a.len() {
        let x = a[b.len() as int];
        assert(keep[x as int]);
        if b.contains(x) {
            let p = choose|p: int| 0 <= p < b.len() && b[p] == x;
            assert(a[p] == x);
            assert(precedes(keys, descending, a[p] as int, a[b.len() as int] as int));
        }
    }
}

/// Two rankings of one table agree on every position that both have.
proof fn lemma_ranking_prefix_agrees(
    keys: Seq<i64>,
    keep: Seq<bool>,
    descending: bool,
    limit: int,
    a: Seq<usize>,
    b: Seq<usize>,
    n: int,
)
    requires
        keys.len() == keep.len(),
        is_ranking(keys, keep, descending, limit, a),
        is_ranking(keys, keep, descending, limit, b),
        0 <= n <= a.len(),
    ensures
        forall|j: int| 0 <= j < n && j < b.len() ==> a[j] == b[j],
    decreases n,
{
    if n > 0 {
        lemma_ranking_prefix_agrees(keys, keep, descending, limit, a, b, n - 1);
        let m = n - 1;
        if m < b.len() && a[m] != b[m] {
            let x = a[m];
            let y = b[m];
            assert(keep[x as int] && keep[y as int]);
            // x stands in b behind position m, or every row of b precedes it
            if b.contains(x) {
                let p = choose|p: int| 0 <= p < b.len() && b[p] == x;
                if p < m {
                    assert(a[p] == b[p]);
                    assert(precedes(keys, descending, a[p] as int, a[m] as int));
                }
                assert(precedes(keys, descending, b[m] as int, b[p] as int));
            } else {
                assert(precedes(keys, descending, b[m] as int, x as int));
            }
            assert(precedes(keys, descending, y as int, x as int));
            if a.contains(y) {
                let q = choose|q: int| 0 <= q < a.len() && a[q] == y;
                if q < m {
                    assert(a[q] == b[q]);
                    assert(precedes(keys, descending, b[q] as int, b[m] as int));
                }
                assert(precedes(keys, descending, a[m] as int, a[q] as int));
            } else {
                assert(precedes(keys, descending, a[m] as int, y as int));
            }
            assert(precedes(keys, descending, x as int, y as int));
        }
    }
}

/// Tells whether row `a` has a strictly better key than row `b`.
fn beats(keys: &Vec<i64>, descending: bool, a: usize, b: usize) -> (r: bool)
    requires
        a < keys.len(),
        b < keys.len(),
    ensures
        r == better(keys@, descending, a as int, b as int),
{
    if descending {
        keys[a] > keys[b]
    } else {
        keys[a] < keys[b]
    }
}

/// Ranks the rows of a table: those with `keep` set, best key first (largest
/// first if `descending`, else smallest first), rows with equal keys in table
/// order, and no more than `limit` of them.
pub fn rank_indices(keys: &Vec<i64>, keep: &Vec<bool>, descending: bool, limit: usize) -> (r: Vec<
    usize,
>)
    requires
        keys.len() == keep.len(),
    ensures
        is_ranking(keys@, keep@, descending, limit as int, r@),
{
    let mut r: Vec<usize> = Vec::new();
    if limit == 0 {
        return r;
    }
    let n: usize = keys.len();
    let mut i: usize = 0;
    while i < n
        invariant
            n == keys.len(),
            n == keep.len(),
            0 < limit,
            i <= n,
            ranks_prefix(keys@, keep@, descending, limit as int, i as int, r@),
        decreases n - i,
    {
        if keep[i] {
            let len: usize = r.len();
            let mut pos: usize = 0;
            while pos < len && !beats(keys, descending, i, r[pos])
                invariant
                    len == r.len(),
                    pos <= len,
                    i < n,
                    n == keys.len(),
                    forall|j: int| 0 <= j < len ==> (#[trigger] r@[j]) < i,
                    forall|j: int|
                        0 <= j < pos ==> !better(keys@, descending, i as int, #[trigger] r@[j] as int),
                decreases len - pos,
            {
                pos = pos + 1;
            }
            proof {
                lemma_rank_insert(keys@, keep@, descending, limit as int, i as int, r@, pos as int);
            }
            r.insert(pos, i);
            if r.len() > limit {
                r.pop();
            }
        } else {
            assert(ranks_prefix(keys@, keep@, descending, limit as int, i + 1, r@));
        }
        i = i + 1;
    }
    r
}

} // verus!
