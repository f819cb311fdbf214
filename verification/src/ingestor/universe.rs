//! The symbols to follow: those with the largest quote volume.

use super::model::Ticker24hr;
use crate::common::events::texts;
use crate::num::decimal::parse_number;
use crate::num::model::{double_format, less, same, Num};
use crate::num::Double;
use crate::rank::{
    is_arrangement, lemma_arrangement_is_complete, lemma_arrangements_agree, places,
};
use crate::text::sorted::{insert_sorted, strictly_sorted};
use crate::text::words::{ends_with, has_suffix, lowercase, to_lower};
use vstd::prelude::*;

verus! {

/// How many symbols are followed.
pub const UNIVERSE_SIZE: usize = 50;

/// A quote volume that is not a number.
#[derive(Debug)]
pub struct VolumeError {
    pub symbol: String,
    pub quote_volume: String,
}

/// Whether a symbol is quoted in USDT.
pub open spec fn is_candidate(t: Ticker24hr) -> bool {
    has_suffix(t.symbol@, "USDT"@)
}

/// The volume and the symbol of each candidate, in their order; `None` where a volume is not a
/// number.
pub open spec fn candidates(tickers: Seq<Ticker24hr>) -> Option<Seq<(Num, Seq<char>)>>
    decreases tickers.len(),
{
    if tickers.len() == 0 {
        Some(Seq::empty())
    } else {
        let before = candidates(tickers.drop_last());
        let t = tickers.last();
        if !is_candidate(t) {
            before
        } else {
            match (before, parse_number(double_format(), t.quote_volume@)) {
                (Some(s), Some(x)) => Some(s.push((x, t.symbol@))),
                _ => None,
            }
        }
    }
}

/// A larger volume comes first; among equal ones the earlier.
pub open spec fn precedes(v: Seq<(Num, Seq<char>)>, i: int, j: int) -> bool {
    less(v[j].0, v[i].0) || (same(v[i].0, v[j].0) && i < j)
}

/// `order` lists the places of `v` from the largest volume to the smallest.
pub open spec fn is_ranking(v: Seq<(Num, Seq<char>)>, order: Seq<int>) -> bool {
    &&& is_arrangement(v.len(), order)
    &&& forall|a: int, b: int|
        0 <= a < b < order.len() ==> precedes(v, #[trigger] order[a], #[trigger] order[b])
}

/// No volume is a not-a-number, so any two can be compared.
pub open spec fn comparable(v: Seq<(Num, Seq<char>)>) -> bool {
    forall|i: int| 0 <= i < v.len() ==> !((#[trigger] v[i]).0 is Nan)
}

/// The symbol at place `i` is among the first `n` of the ranking.
pub open spec fn chosen(order: Seq<int>, n: int, i: int) -> bool {
    exists|a: int| 0 <= a < n && a < order.len() && #[trigger] order[a] == i
}

/// The list holds exactly the lower-case forms of the best-ranked symbols.
pub open spec fn holds_best(
    v: Seq<(Num, Seq<char>)>,
    order: Seq<int>,
    n: int,
    r: Seq<Seq<char>>,
) -> bool {
    forall|s: Seq<char>| #[trigger]
        r.contains(s) <==> exists|i: int|
            0 <= i < v.len() && chosen(order, n, i) && s == lowercase((#[trigger] v[i]).1)
}

spec fn seen(v: Seq<(Double, String)>) -> Seq<(Num, Seq<char>)> {
    v.map_values(|p: (Double, String)| (p.0@, p.1@))
}

proof fn lemma_prefix_fails(tickers: Seq<Ticker24hr>, i: int)
    requires
        0 <= i <= tickers.len(),
        candidates(tickers.take(i)) is None,
    ensures
        candidates(tickers) is None,
    decreases tickers.len() - i,
{
    if i < tickers.len() {
        assert(tickers.take(i + 1).drop_last() =~= tickers.take(i));
        lemma_prefix_fails(tickers, i + 1);
    } else {
        assert(tickers.take(i) =~= tickers);
    }
}

fn collect(tickers: &[Ticker24hr]) -> (r: Result<Vec<(Double, String)>, VolumeError>)
    ensures
        match r {
            Ok(v) => candidates(tickers@) == Some(seen(v@)),
            Err(e) => candidates(tickers@) is None && exists|i: int|
                0 <= i < tickers@.len() && is_candidate(#[trigger] tickers@[i]) && e.symbol@
                    == tickers@[i].symbol@ && e.quote_volume@ == tickers@[i].quote_volume@
                    && parse_number(double_format(), e.quote_volume@) is None && candidates(
                    tickers@.take(i),
                ) is Some,
        },
{
    let mut v: Vec<(Double, String)> = Vec::new();
    let mut i: usize = 0;
    proof {
        assert(seen(v@) =~= Seq::<(Num, Seq<char>)>::empty());
        assert(tickers@.take(0) =~= Seq::<Ticker24hr>::empty());
    }
    while i < tickers.len()
        invariant
            i <= tickers@.len(),
            candidates(tickers@.take(i as int)) == Some(seen(v@)),
        decreases tickers@.len() - i,
    {
        let t = &tickers[i];
        proof {
            assert(tickers@.take(i + 1).drop_last() =~= tickers@.take(i as int));
            assert(tickers@.take(i + 1).last() == tickers@[i as int]);
        }
        if ends_with(t.symbol.as_str(), "USDT") {
            match Double::parse(t.quote_volume.as_str()) {
                Some(x) => {
                    let ghost before = v@;
                    v.push((x, t.symbol.clone()));
                    proof {
                        assert(seen(v@) =~= seen(before).push((x@, t.symbol@)));
                    }
                },
                None => {
                    proof {
                        lemma_prefix_fails(tickers@, i + 1);
                    }
                    return Err(
                        VolumeError {
                            symbol: t.symbol.clone(),
                            quote_volume: t.quote_volume.clone(),
                        },
                    );
                },
            }
        }
        i = i + 1;
    }
    proof {
        assert(tickers@.take(tickers@.len() as int) =~= tickers@);
    }
    Ok(v)
}

proof fn lemma_precedes_next(v: Seq<(Num, Seq<char>)>, a: int, b: int, i: int)
    requires
        comparable(v),
        0 <= a < i < v.len(),
        0 <= b < i,
        a == b || precedes(v, a, b),
        !less(v[b].0, v[i].0),
    ensures
        precedes(v, a, i),
{
    assert(!(v[a].0 is Nan) && !(v[b].0 is Nan) && !(v[i].0 is Nan));
}

/// Ranks by insertion.
fn rank(v: &Vec<(Double, String)>) -> (order: Vec<usize>)
    ensures
        order@.len() == v@.len(),
        forall|a: int| 0 <= a < order@.len() ==> #[trigger] order@[a] < v@.len(),
        is_arrangement(v@.len(), places(order@)),
        comparable(seen(v@)) ==> is_ranking(seen(v@), places(order@)),
{
    let ghost s = seen(v@);
    let mut order: Vec<usize> = Vec::new();
    let mut i: usize = 0;
    while i < v.len()
        invariant
            i <= v@.len(),
            s == seen(v@),
            order@.len() == i,
            forall|a: int| 0 <= a < order@.len() ==> #[trigger] order@[a] < i,
            forall|a: int, b: int|
                0 <= a < b < order@.len() ==> #[trigger] order@[a] != #[trigger] order@[b],
            comparable(s) ==> forall|a: int, b: int|
                0 <= a < b < order@.len() ==> precedes(
                    s,
                    #[trigger] order@[a] as int,
                    #[trigger] order@[b] as int,
                ),
        decreases v@.len() - i,
    {
        let mut p: usize = order.len();
        while p > 0 && v[order[p - 1]].0.below(v[i].0)
            invariant
                i < v@.len(),
                p <= order@.len(),
                s == seen(v@),
                forall|a: int| 0 <= a < order@.len() ==> #[trigger] order@[a] < i,
                forall|a: int|
                    p <= a < order@.len() ==> less(s[(#[trigger] order@[a]) as int].0, s[i as int].0),
            decreases p,
        {
            p = p - 1;
        }
        let ghost before = order@;
        order.insert(p, i);
        proof {
            assert(order@ == before.insert(p as int, i));
            if comparable(s) {
                assert forall|a: int, b: int| 0 <= a < b < order@.len() implies precedes(
                    s,
                    #[trigger] order@[a] as int,
                    #[trigger] order@[b] as int,
                ) by {
                    if b == p {
                        assert(order@[a] == before[a]);
                        assert(!less(s[before[p - 1] as int].0, s[i as int].0));
                        lemma_precedes_next(s, before[a] as int, before[p - 1] as int, i as int);
                    } else if a == p {
                        assert(order@[b] == before[b - 1]);
                    } else {
                        let a0 = if a < p {
                            a
                        } else {
                            a - 1
                        };
                        let b0 = if b < p {
                            b
                        } else {
                            b - 1
                        };
                        assert(order@[a] == before[a0] && order@[b] == before[b0]);
                    }
                }
            }
            assert forall|a: int, b: int| 0 <= a < b < order@.len() implies #[trigger] order@[a]
                != #[trigger] order@[b] by {
                let a0 = if a < p {
                    a
                } else {
                    a - 1
                };
                let b0 = if b < p {
                    b
                } else {
                    b - 1
                };
                if a != p && b != p {
                    assert(order@[a] == before[a0] && order@[b] == before[b0]);
                } else if a == p {
                    assert(order@[b] == before[b0]);
                } else {
                    assert(order@[a] == before[a0]);
                }
            }
        }
        i = i + 1;
    }
    proof {
        let r = places(order@);
        assert forall|a: int| 0 <= a < r.len() implies 0 <= #[trigger] r[a] < s.len() by {
            assert(order@[a] < v@.len());
        }
        assert(r.no_duplicates());
        if comparable(s) {
            assert forall|a: int, b: int| 0 <= a < b < r.len() implies precedes(
                s,
                #[trigger] r[a],
                #[trigger] r[b],
            ) by {
                assert(r[a] == order@[a] as int && r[b] == order@[b] as int);
            }
        }
    }
    order
}

/// The list holds the first symbols of an arrangement of the candidates, which ranks them where
/// their volumes can be compared.
pub open spec fn is_universe(v: Seq<(Num, Seq<char>)>, list: Seq<Seq<char>>) -> bool {
    exists|order: Seq<int>|
        {
            &&& is_arrangement(v.len(), order)
            &&& comparable(v) ==> is_ranking(v, order)
            &&& #[trigger] holds_best(v, order, UNIVERSE_SIZE as int, list)
        }
}

/// The symbols to follow: of those quoted in USDT the ones with the largest quote volume, in
/// lower case and alphabetical order. A volume that is a not-a-number cannot be compared, and
/// which of the symbols are the first is then left open.
pub fn top_coins(tickers: &[Ticker24hr]) -> (r: Result<Vec<String>, VolumeError>)
    ensures
        match r {
            Ok(list) => {
                &&& candidates(tickers@) is Some
                &&& strictly_sorted(texts(list@))
                &&& list@.len() <= UNIVERSE_SIZE
                &&& is_universe(candidates(tickers@)->Some_0, texts(list@))
            },
            Err(e) => candidates(tickers@) is None && exists|i: int|
                0 <= i < tickers@.len() && is_candidate(#[trigger] tickers@[i]) && e.symbol@
                    == tickers@[i].symbol@ && e.quote_volume@ == tickers@[i].quote_volume@
                    && parse_number(double_format(), e.quote_volume@) is None && candidates(
                    tickers@.take(i),
                ) is Some,
        },
{
    let v = match collect(tickers) {
        Ok(v) => v,
        Err(e) => return Err(e),
    };
    let ghost s = seen(v@);
    let order = rank(&v);
    let ghost ranks = places(order@);
    let mut list: Vec<String> = Vec::new();
    let mut a: usize = 0;
    proof {
        assert(texts(list@) =~= Seq::<Seq<char>>::empty());
    }
    while a < order.len() && a < UNIVERSE_SIZE
        invariant
            a <= order@.len(),
            a <= UNIVERSE_SIZE,
            s == seen(v@),
            ranks == places(order@),
            forall|b: int| 0 <= b < order@.len() ==> #[trigger] order@[b] < v@.len(),
            strictly_sorted(texts(list@)),
            list@.len() <= a,
            holds_best(s, ranks, a as int, texts(list@)),
        decreases order@.len() - a,
    {
        let i: usize = order[a];
        let ghost before = texts(list@);
        let word = to_lower(v[i].1.as_str());
        insert_sorted(&mut list, word);
        proof {
            let after = texts(list@);
            assert(s[i as int].1 == v@[i as int].1@);
            assert forall|t: Seq<char>| #[trigger] after.contains(t) <==> exists|k: int|
                0 <= k < s.len() && chosen(ranks, a + 1, k) && t == lowercase(
                    (#[trigger] s[k]).1,
                ) by {
                if after.contains(t) {
                    if before.contains(t) {
                        let k = choose|k: int|
                            0 <= k < s.len() && chosen(ranks, a as int, k) && t == lowercase(
                                (#[trigger] s[k]).1,
                            );
                        let b = choose|b: int|
                            0 <= b < a && b < ranks.len() && #[trigger] ranks[b] == k;
                        assert(ranks[b] == k);
                        assert(chosen(ranks, a + 1, k));
                    } else {
                        assert(ranks[a as int] == i);
                        assert(chosen(ranks, a + 1, i as int));
                        assert(t == lowercase(s[i as int].1));
                    }
                }
                if exists|k: int|
                    0 <= k < s.len() && chosen(ranks, a + 1, k) && t == lowercase(
                        (#[trigger] s[k]).1,
                    ) {
                    let k = choose|k: int|
                        0 <= k < s.len() && chosen(ranks, a + 1, k) && t == lowercase(
                            (#[trigger] s[k]).1,
                        );
                    let b = choose|b: int|
                        0 <= b < a + 1 && b < ranks.len() && #[trigger] ranks[b] == k;
                    if b < a {
                        assert(chosen(ranks, a as int, k));
                        assert(before.contains(t));
                    } else {
                        assert(k == i);
                    }
                }
            }
        }
        a = a + 1;
    }
    proof {
        assert forall|k: int| chosen(ranks, a as int, k) == chosen(
            ranks,
            UNIVERSE_SIZE as int,
            k,
        ) by {
            if chosen(ranks, UNIVERSE_SIZE as int, k) {
                let b = choose|b: int|
                    0 <= b < UNIVERSE_SIZE && b < ranks.len() && #[trigger] ranks[b] == k;
                assert(ranks[b] == k && b < a);
            }
            if chosen(ranks, a as int, k) {
                let b = choose|b: int| 0 <= b < a && b < ranks.len() && #[trigger] ranks[b] == k;
                assert(ranks[b] == k && b < UNIVERSE_SIZE);
            }
        }
        assert(holds_best(s, ranks, UNIVERSE_SIZE as int, texts(list@)));
    }
    Ok(list)
}

/// A ranking is determined by the volumes: there is only one.
pub proof fn law_ranking_is_unique(v: Seq<(Num, Seq<char>)>, x: Seq<int>, y: Seq<int>)
    requires
        is_ranking(v, x),
        is_ranking(v, y),
    ensures
        x == y,
{
    lemma_arrangements_agree(|i: int, j: int| precedes(v, i, j), x, y, v.len());
    assert(x =~= y);
}

/// With no more candidates than are followed, every one of them is followed, whatever the volumes.
pub proof fn law_few_candidates_are_all_held(
    v: Seq<(Num, Seq<char>)>,
    list: Seq<Seq<char>>,
    i: int,
)
    requires
        is_universe(v, list),
        v.len() <= UNIVERSE_SIZE,
        0 <= i < v.len(),
    ensures
        list.contains(lowercase(v[i].1)),
{
    let order = choose|order: Seq<int>|
        {
            &&& is_arrangement(v.len(), order)
            &&& comparable(v) ==> is_ranking(v, order)
            &&& #[trigger] holds_best(v, order, UNIVERSE_SIZE as int, list)
        };
    lemma_arrangement_is_complete(v.len(), order, i);
    assert(chosen(order, UNIVERSE_SIZE as int, i));
}

} // verus!
