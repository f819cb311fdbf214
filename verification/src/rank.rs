//! Stable ranking of keys.

use vstd::prelude::*;

verus! {

/// The smaller key comes first; among equal keys the earlier one.
pub open spec fn precedes(keys: Seq<(i64, u64)>, i: int, j: int) -> bool {
    ||| keys[i].0 < keys[j].0
    ||| keys[i].0 == keys[j].0 && keys[i].1 < keys[j].1
    ||| keys[i] == keys[j] && i < j
}

/// `order` lists all places of `keys`, each before those that it precedes.
pub open spec fn is_ranking(keys: Seq<(i64, u64)>, order: Seq<int>) -> bool {
    &&& order.len() == keys.len()
    &&& forall|a: int| 0 <= a < order.len() ==> 0 <= #[trigger] order[a] < keys.len()
    &&& forall|a: int, b: int|
        0 <= a < b < order.len() ==> precedes(keys, #[trigger] order[a], #[trigger] order[b])
}

/// The ranking of the keys.
pub open spec fn ranking_of(keys: Seq<(i64, u64)>) -> Seq<int> {
    choose|order: Seq<int>| is_ranking(keys, order)
}

pub open spec fn places(order: Seq<usize>) -> Seq<int> {
    order.map_values(|i: usize| i as int)
}

/// `order` lists each of the first `n` places once.
pub open spec fn is_arrangement(n: nat, order: Seq<int>) -> bool {
    &&& order.len() == n
    &&& order.no_duplicates()
    &&& forall|a: int| 0 <= a < order.len() ==> 0 <= #[trigger] order[a] < n
}

/// Every place occurs in an arrangement.
pub proof fn lemma_arrangement_is_complete(n: nat, order: Seq<int>, i: int)
    requires
        is_arrangement(n, order),
        0 <= i < n,
    ensures
        exists|b: int| 0 <= b < order.len() && #[trigger] order[b] == i,
{
    let all = vstd::set_lib::set_int_range(0, n as int);
    let used = order.to_set();
    vstd::set_lib::lemma_int_range(0, n as int);
    order.unique_seq_to_set();
    assert(used.subset_of(all)) by {
        assert forall|k: int| used.contains(k) implies all.contains(k) by {
            let b = choose|b: int| 0 <= b < order.len() && order[b] == k;
            assert(0 <= order[b] < n);
        }
    }
    vstd::set_lib::lemma_subset_equality(used, all);
    assert(used.contains(i));
}

/// `before` holds from each place of the order to all later ones.
pub open spec fn follows(before: spec_fn(int, int) -> bool, order: Seq<int>) -> bool {
    forall|a: int, b: int|
        0 <= a < b < order.len() ==> before(#[trigger] order[a], #[trigger] order[b])
}

/// Two arrangements that follow a relation which never holds both ways agree on their first `n`
/// places.
pub proof fn lemma_arrangements_agree(
    before: spec_fn(int, int) -> bool,
    x: Seq<int>,
    y: Seq<int>,
    n: nat,
)
    requires
        is_arrangement(x.len(), x),
        is_arrangement(x.len(), y),
        follows(before, x),
        follows(before, y),
        forall|i: int, j: int|
            0 <= i < x.len() && 0 <= j < x.len() && #[trigger] before(i, j) ==> !before(j, i),
        n <= x.len(),
    ensures
        forall|a: int| 0 <= a < n ==> x[a] == y[a],
    decreases n,
{
    if n > 0 {
        lemma_arrangements_agree(before, x, y, (n - 1) as nat);
        let a = n - 1;
        if x[a] != y[a] {
            lemma_arrangement_is_complete(x.len(), y, x[a]);
            let b = choose|b: int| 0 <= b < y.len() && y[b] == x[a];
            if b < a {
                assert(x[b] == y[b]);
            }
            lemma_arrangement_is_complete(x.len(), x, y[a]);
            let c = choose|c: int| 0 <= c < x.len() && x[c] == y[a];
            if c < a {
                assert(x[c] == y[c]);
            }
            assert(before(x[a], x[c]));
            assert(before(y[a], y[b]));
        }
    }
}

proof fn lemma_ranking_is_arrangement(keys: Seq<(i64, u64)>, order: Seq<int>)
    requires
        is_ranking(keys, order),
    ensures
        is_arrangement(keys.len(), order),
{
    assert forall|a: int, b: int|
        0 <= a < order.len() && 0 <= b < order.len() && a != b implies order[a] != order[b] by {
        if a < b {
            assert(precedes(keys, order[a], order[b]));
        } else {
            assert(precedes(keys, order[b], order[a]));
        }
    }
}

/// Every place occurs in a ranking.
pub proof fn lemma_ranking_is_complete(keys: Seq<(i64, u64)>, order: Seq<int>, i: int)
    requires
        is_ranking(keys, order),
        0 <= i < keys.len(),
    ensures
        exists|b: int| 0 <= b < order.len() && #[trigger] order[b] == i,
{
    lemma_ranking_is_arrangement(keys, order);
    lemma_arrangement_is_complete(keys.len(), order, i);
}

/// There is only one ranking.
pub proof fn law_ranking_is_unique(keys: Seq<(i64, u64)>, x: Seq<int>, y: Seq<int>)
    requires
        is_ranking(keys, x),
        is_ranking(keys, y),
    ensures
        x == y,
{
    lemma_ranking_is_arrangement(keys, x);
    lemma_ranking_is_arrangement(keys, y);
    lemma_arrangements_agree(|i: int, j: int| precedes(keys, i, j), x, y, keys.len());
    assert(x =~= y);
}

/// Where `x` goes into the first `p` places of an order.
spec fn slot(keys: Seq<(i64, u64)>, order: Seq<int>, x: int, p: nat) -> nat
    decreases p,
{
    if p > 0 && precedes(keys, x, order[p - 1]) {
        slot(keys, order, x, (p - 1) as nat)
    } else {
        p
    }
}

proof fn lemma_slot(keys: Seq<(i64, u64)>, order: Seq<int>, x: int, p: nat)
    requires
        p <= order.len(),
    ensures
        slot(keys, order, x, p) <= p,
        forall|a: int|
            slot(keys, order, x, p) <= a < p ==> precedes(keys, x, #[trigger] order[a]),
        slot(keys, order, x, p) > 0 ==> !precedes(
            keys,
            x,
            order[slot(keys, order, x, p) - 1],
        ),
    decreases p,
{
    if p > 0 && precedes(keys, x, order[p - 1]) {
        lemma_slot(keys, order, x, (p - 1) as nat);
    }
}

proof fn lemma_ranked(keys: Seq<(i64, u64)>) -> (order: Seq<int>)
    ensures
        is_ranking(keys, order),
    decreases keys.len(),
{
    if keys.len() == 0 {
        Seq::empty()
    } else {
        let before = keys.drop_last();
        let o = lemma_ranked(before);
        let x = keys.len() - 1;
        let p = slot(keys, o, x, o.len()) as int;
        lemma_slot(keys, o, x, o.len());
        let r = o.insert(p, x);
        assert forall|a: int| 0 <= a < r.len() implies 0 <= #[trigger] r[a] < keys.len() by {
            if a < p {
                assert(r[a] == o[a]);
            } else if a > p {
                assert(r[a] == o[a - 1]);
            }
        }
        assert forall|a: int, b: int| 0 <= a < b < r.len() implies precedes(
            keys,
            #[trigger] r[a],
            #[trigger] r[b],
        ) by {
            if b == p {
                assert(r[a] == o[a]);
                assert(0 <= o[p - 1] < before.len());
                if a < p - 1 {
                    assert(precedes(before, o[a], o[p - 1]));
                    assert(0 <= o[a] < before.len());
                }
            } else if a == p {
                assert(r[b] == o[b - 1]);
            } else {
                let a0 = if a < p {
                    a
                } else {
                    a - 1
                };
                let b0 = if b < p {
                    b
                } else {
                    b - 1
                };
                assert(r[a] == o[a0] && r[b] == o[b0]);
                assert(precedes(before, o[a0], o[b0]));
                assert(0 <= o[a0] < before.len() && 0 <= o[b0] < before.len());
            }
        }
        r
    }
}

/// Every list of keys has a ranking.
pub proof fn law_ranking_exists(keys: Seq<(i64, u64)>)
    ensures
        is_ranking(keys, ranking_of(keys)),
{
    let order = lemma_ranked(keys);
}

fn comes_first(keys: &Vec<(i64, u64)>, i: usize, j: usize) -> (r: bool)
    requires
        i < keys@.len(),
        j < keys@.len(),
    ensures
        r == precedes(keys@, i as int, j as int),
{
    let x = keys[i];
    let y = keys[j];
    x.0 < y.0 || (x.0 == y.0 && (x.1 < y.1 || (x.1 == y.1 && i < j)))
}

/// Places from `lo` on and below `hi`, each before those that it precedes.
spec fn ascending(keys: Seq<(i64, u64)>, order: Seq<usize>, lo: int, hi: int) -> bool {
    &&& forall|a: int| 0 <= a < order.len() ==> lo <= #[trigger] order[a] < hi
    &&& forall|a: int, b: int|
        0 <= a < b < order.len() ==> precedes(
            keys,
            #[trigger] order[a] as int,
            #[trigger] order[b] as int,
        )
}

/// The places of `x` come before those of `y` from `from` on.
spec fn all_before(keys: Seq<(i64, u64)>, x: Seq<usize>, y: Seq<usize>, from: int) -> bool {
    forall|a: int, b: int|
        0 <= a < x.len() && from <= b < y.len() ==> precedes(
            keys,
            #[trigger] x[a] as int,
            #[trigger] y[b] as int,
        )
}

fn merge(
    keys: &Vec<(i64, u64)>,
    x: &Vec<usize>,
    y: &Vec<usize>,
    Ghost(lo): Ghost<int>,
    Ghost(mid): Ghost<int>,
    Ghost(hi): Ghost<int>,
) -> (r: Vec<usize>)
    requires
        0 <= lo <= mid <= hi <= keys@.len(),
        ascending(keys@, x@, lo, mid),
        ascending(keys@, y@, mid, hi),
        x@.len() + y@.len() <= usize::MAX,
    ensures
        ascending(keys@, r@, lo, hi),
        r@.len() == x@.len() + y@.len(),
{
    let mut r: Vec<usize> = Vec::new();
    let mut i: usize = 0;
    let mut j: usize = 0;
    while i < x.len() || j < y.len()
        invariant
            0 <= lo <= mid <= hi <= keys@.len(),
            ascending(keys@, x@, lo, mid),
            ascending(keys@, y@, mid, hi),
            i <= x@.len(),
            j <= y@.len(),
            r@.len() == i + j,
            ascending(keys@, r@, lo, hi),
            all_before(keys@, r@, x@, i as int),
            all_before(keys@, r@, y@, j as int),
        decreases x@.len() - i + y@.len() - j,
    {
        let left = j >= y.len() || (i < x.len() && comes_first(keys, x[i], y[j]));
        let ghost before = r@;
        let next: usize = if left {
            x[i]
        } else {
            y[j]
        };
        proof {
            let i1: int = if left {
                i + 1
            } else {
                i as int
            };
            let j1: int = if left {
                j as int
            } else {
                j + 1
            };
            let after = before.push(next);
            assert forall|a: int, b: int| 0 <= a < after.len() && i1 <= b < x@.len() implies precedes(
                keys@,
                #[trigger] after[a] as int,
                #[trigger] x@[b] as int,
            ) by {
                if a == before.len() && !left {
                    assert(precedes(keys@, y@[j as int] as int, x@[i as int] as int));
                    if b > i {
                        assert(precedes(keys@, x@[i as int] as int, x@[b] as int));
                    }
                }
            }
            assert forall|a: int, b: int| 0 <= a < after.len() && j1 <= b < y@.len() implies precedes(
                keys@,
                #[trigger] after[a] as int,
                #[trigger] y@[b] as int,
            ) by {
                if a == before.len() && left {
                    assert(precedes(keys@, x@[i as int] as int, y@[j as int] as int));
                    if b > j {
                        assert(precedes(keys@, y@[j as int] as int, y@[b] as int));
                    }
                }
            }
        }
        r.push(next);
        if left {
            i = i + 1;
        } else {
            j = j + 1;
        }
    }
    r
}

fn sort_range(keys: &Vec<(i64, u64)>, lo: usize, hi: usize) -> (r: Vec<usize>)
    requires
        lo <= hi <= keys@.len(),
    ensures
        ascending(keys@, r@, lo as int, hi as int),
        r@.len() == hi - lo,
    decreases hi - lo,
{
    if hi - lo <= 1 {
        let mut r: Vec<usize> = Vec::new();
        if hi - lo == 1 {
            r.push(lo);
        }
        r
    } else {
        let mid: usize = lo + (hi - lo) / 2;
        let x = sort_range(keys, lo, mid);
        let y = sort_range(keys, mid, hi);
        merge(keys, &x, &y, Ghost(lo as int), Ghost(mid as int), Ghost(hi as int))
    }
}

/// The places of the keys in ranking order.
pub fn ranking(keys: &Vec<(i64, u64)>) -> (r: Vec<usize>)
    ensures
        is_ranking(keys@, places(r@)),
        places(r@) == ranking_of(keys@),
{
    let r = sort_range(keys, 0, keys.len());
    proof {
        let p = places(r@);
        assert forall|a: int| 0 <= a < p.len() implies 0 <= #[trigger] p[a] < keys@.len() by {
            assert(r@[a] < keys@.len());
        }
        assert forall|a: int, b: int| 0 <= a < b < p.len() implies precedes(
            keys@,
            #[trigger] p[a],
            #[trigger] p[b],
        ) by {
            assert(p[a] == r@[a] as int && p[b] == r@[b] as int);
        }
        law_ranking_exists(keys@);
        law_ranking_is_unique(keys@, p, ranking_of(keys@));
    }
    r
}

} // verus!
