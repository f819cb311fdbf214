//! Paper trading: the orders of a replay against its quotes.

use super::engine::OrderWithDecision;
use crate::common::events::texts;
use crate::common::BboTick;
use crate::num::Double;
use crate::rank::{
    is_ranking, law_ranking_exists, law_ranking_is_unique, lemma_ranking_is_complete, places,
    precedes, ranking, ranking_of,
};
use crate::sim_broker::paper_broker::{
    account_of, active_names, executed, has_room, law_counts_grow_by_one, quoted, AccountModel,
    AccountSnapshot, BrokerModel, Fill, FillModel, PaperBroker, PaperBrokerConfig,
};
use crate::symbols::SymbolMap;
use crate::text::words::{to_upper, uppercase};
use vstd::prelude::*;

verus! {

/// Least time between two snapshots of a symbol that no fill brought about.
pub const SNAPSHOT_INTERVAL_MS: i64 = 1000;

/// What a simulation produced.
#[derive(Debug)]
pub struct PaperResult {
    pub initial_cash_usdt: Double,
    pub fills: Vec<Fill>,
    pub account_snapshots: Vec<AccountSnapshot>,
}

pub open spec fn fill_views(v: Seq<Fill>) -> Seq<FillModel> {
    v.map_values(|f: Fill| f@)
}

pub open spec fn account_views(v: Seq<AccountSnapshot>) -> Seq<AccountModel> {
    v.map_values(|a: AccountSnapshot| a@)
}

/// A simulation in progress; `last` is when a snapshot of each symbol was taken last.
#[verifier::ext_equal]
pub struct PaperModel {
    pub broker: BrokerModel,
    pub last: Map<Seq<char>, i64>,
    pub fills: Seq<FillModel>,
    pub accounts: Seq<AccountModel>,
}

impl PaperModel {
    /// Takes a snapshot of a symbol, where the broker knows it.
    pub open spec fn noted(self, symbol: Seq<char>, ts: i64) -> PaperModel {
        match account_of(self.broker, symbol, ts) {
            Some(a) => PaperModel {
                last: self.last.insert(symbol, ts),
                accounts: self.accounts.push(a),
                ..self
            },
            None => self,
        }
    }

    /// A quote: the broker notes it, and once the interval has passed a snapshot is taken.
    pub open spec fn on_quote(self, t: BboTick) -> PaperModel {
        let symbol = uppercase(t.symbol@);
        let last = if self.last.contains_key(symbol) {
            self.last[symbol]
        } else {
            0
        };
        let now = PaperModel { broker: quoted(self.broker, t), ..self };
        if t.ts_exchange - last >= SNAPSHOT_INTERVAL_MS {
            now.noted(symbol, t.ts_exchange)
        } else {
            now
        }
    }

    /// An order: the broker executes it, and a snapshot is taken.
    pub open spec fn on_order(self, o: OrderWithDecision) -> PaperModel {
        let ts = o.decision.ts_exchange;
        let (broker, fill) = executed(self.broker, o.order, ts);
        PaperModel { broker, fills: self.fills.push(fill), ..self }.noted(
            uppercase(o.order.symbol@),
            ts,
        )
    }
}

/// Quotes and orders by moment; quotes come before orders of the same moment.
pub open spec fn paper_keys(
    ticks: Seq<BboTick>,
    orders: Seq<OrderWithDecision>,
) -> Seq<(i64, u64)> {
    ticks.map_values(|t: BboTick| (t.ts_exchange, 0u64)) + orders.map_values(
        |o: OrderWithDecision| (o.decision.ts_exchange, 1u64),
    )
}

/// The simulation after the first `n` of the quotes and orders in the given order.
pub open spec fn paper_after(
    ticks: Seq<BboTick>,
    orders: Seq<OrderWithDecision>,
    config: PaperBrokerConfig,
    order: Seq<int>,
    n: nat,
) -> PaperModel
    decreases n,
{
    if n == 0 {
        PaperModel {
            broker: BrokerModel {
                config,
                cash: config.initial_cash_usdt@,
                portfolios: Map::empty(),
                quotes: Map::empty(),
            },
            last: Map::empty(),
            fills: Seq::empty(),
            accounts: Seq::empty(),
        }
    } else {
        let before = paper_after(ticks, orders, config, order, (n - 1) as nat);
        let i = order[n - 1];
        if i < ticks.len() {
            before.on_quote(ticks[i])
        } else {
            before.on_order(orders[i - ticks.len()])
        }
    }
}

/// The closing snapshots of these symbols.
pub open spec fn closing(m: BrokerModel, names: Seq<Seq<char>>, ts: i64) -> Seq<AccountModel>
    decreases names.len(),
{
    if names.len() == 0 {
        Seq::empty()
    } else {
        let before = closing(m, names.drop_last(), ts);
        match account_of(m, names.last(), ts) {
            Some(a) => before.push(a),
            None => before,
        }
    }
}

/// The simulation after all quotes and orders.
pub open spec fn paper_end(
    ticks: Seq<BboTick>,
    orders: Seq<OrderWithDecision>,
    config: PaperBrokerConfig,
) -> PaperModel {
    let keys = paper_keys(ticks, orders);
    paper_after(ticks, orders, config, ranking_of(keys), keys.len())
}

/// All account snapshots: those taken on the way, then those of the open positions at the moment
/// of the last quote.
pub open spec fn paper_accounts(
    ticks: Seq<BboTick>,
    orders: Seq<OrderWithDecision>,
    config: PaperBrokerConfig,
) -> Seq<AccountModel> {
    let end = paper_end(ticks, orders, config);
    if ticks.len() == 0 {
        end.accounts
    } else {
        end.accounts + closing(end.broker, active_names(end.broker), ticks.last().ts_exchange)
    }
}

struct Paper {
    broker: PaperBroker,
    last: SymbolMap<i64>,
    fills: Vec<Fill>,
    accounts: Vec<AccountSnapshot>,
}

impl Paper {
    spec fn model(self) -> PaperModel {
        PaperModel {
            broker: self.broker@,
            last: self.last@,
            fills: fill_views(self.fills@),
            accounts: account_views(self.accounts@),
        }
    }

    fn note(&mut self, symbol: &str, ts: i64)
        ensures
            final(self).model() == old(self).model().noted(symbol@, ts),
    {
        let ghost before = self.model();
        if let Some(a) = self.broker.account_snapshot(symbol, ts) {
            let ghost view = a@;
            self.accounts.push(a);
            self.last.insert(symbol, ts);
            proof {
                assert(account_views(self.accounts@) =~= before.accounts.push(view));
            }
        }
    }

    fn on_quote(&mut self, t: &BboTick)
        ensures
            final(self).model() == old(self).model().on_quote(*t),
    {
        self.broker.update_bbo(t);
        let symbol = to_upper(t.symbol.as_str());
        let last: i64 = match self.last.get(symbol.as_str()) {
            Some(l) => *l,
            None => 0,
        };
        let since: i128 = t.ts_exchange as i128 - last as i128;
        if since >= SNAPSHOT_INTERVAL_MS as i128 {
            self.note(symbol.as_str(), t.ts_exchange);
        }
    }

    fn on_order(&mut self, o: &OrderWithDecision)
        requires
            has_room(old(self).model().broker.portfolio(uppercase(o.order.symbol@))),
        ensures
            final(self).model() == old(self).model().on_order(*o),
    {
        let ghost before = self.model();
        let ts: i64 = o.decision.ts_exchange;
        let fill = self.broker.execute_order(&o.order, ts);
        let ghost view = fill@;
        self.fills.push(fill);
        proof {
            assert(fill_views(self.fills@) =~= before.fills.push(view));
        }
        let symbol = to_upper(o.order.symbol.as_str());
        self.note(symbol.as_str(), ts);
    }
}

/// Executes the orders against the quotes: all by moment, quotes before orders of the same
/// moment.
pub fn run_paper_trading(
    bbo_ticks: &Vec<BboTick>,
    orders_with_decisions: &Vec<OrderWithDecision>,
    config: PaperBrokerConfig,
) -> (r: PaperResult)
    requires
        orders_with_decisions@.len() <= u32::MAX,
    ensures
        r.initial_cash_usdt == config.initial_cash_usdt,
        fill_views(r.fills@) == paper_end(bbo_ticks@, orders_with_decisions@, config).fills,
        account_views(r.account_snapshots@) == paper_accounts(
            bbo_ticks@,
            orders_with_decisions@,
            config,
        ),
{
    let ghost ticks = bbo_ticks@;
    let ghost orders = orders_with_decisions@;
    let ghost all = paper_keys(ticks, orders);
    let mut keys: Vec<(i64, u64)> = Vec::new();
    let mut i: usize = 0;
    while i < bbo_ticks.len()
        invariant
            ticks == bbo_ticks@,
            i <= ticks.len(),
            all == paper_keys(ticks, orders),
            keys@ == all.take(i as int),
        decreases ticks.len() - i,
    {
        keys.push((bbo_ticks[i].ts_exchange, 0));
        i = i + 1;
        proof {
            assert(keys@ =~= all.take(i as int));
        }
    }
    let n: usize = bbo_ticks.len();
    let mut j: usize = 0;
    while j < orders_with_decisions.len()
        invariant
            n == ticks.len(),
            orders == orders_with_decisions@,
            j <= orders.len(),
            all == paper_keys(ticks, orders),
            keys@ == all.take(n + j),
        decreases orders.len() - j,
    {
        keys.push((orders_with_decisions[j].decision.ts_exchange, 1));
        j = j + 1;
        proof {
            assert(keys@ =~= all.take(n + j));
        }
    }
    proof {
        assert(all.take(all.len() as int) =~= all);
    }
    let order = ranking(&keys);
    let ghost ranks = ranking_of(all);
    let mut paper = Paper {
        broker: PaperBroker::new(config),
        last: SymbolMap::new(),
        fills: Vec::new(),
        accounts: Vec::new(),
    };
    proof {
        assert(fill_views(paper.fills@) =~= Seq::<FillModel>::empty());
        assert(account_views(paper.accounts@) =~= Seq::<AccountModel>::empty());
        assert(paper.model() == paper_after(ticks, orders, config, ranks, 0));
    }
    let mut k: usize = 0;
    let ghost mut done: int = 0;
    while k < order.len()
        invariant
            ticks == bbo_ticks@,
            orders == orders_with_decisions@,
            n == ticks.len(),
            orders.len() <= u32::MAX,
            order@.len() == ticks.len() + orders.len(),
            all == paper_keys(ticks, orders),
            ranks == places(order@),
            is_ranking(all, ranks),
            k <= order@.len(),
            paper.model() == paper_after(ticks, orders, config, ranks, k as nat),
            done == orders_among(ranks, n as int, k as nat),
            paper.model().broker.counts_within(done),
        decreases order@.len() - k,
    {
        let at: usize = order[k];
        proof {
            assert(ranks[k as int] == at);
            assert(0 <= ranks[k as int] < all.len());
            lemma_orders_among(all, ranks, n as int, k as nat);
        }
        if at < n {
            paper.on_quote(&bbo_ticks[at]);
            proof {
                lemma_quote_keeps_counts(
                    paper_after(ticks, orders, config, ranks, k as nat),
                    ticks[at as int],
                    done,
                );
            }
        } else {
            let ghost before = paper.model();
            paper.on_order(&orders_with_decisions[at - n]);
            proof {
                let o = orders[at - n];
                law_counts_grow_by_one(before.broker, o.order, o.decision.ts_exchange, done);
                done = done + 1;
            }
        }
        k = k + 1;
    }
    if n > 0 {
        let ts: i64 = bbo_ticks[n - 1].ts_exchange;
        let names = paper.broker.active_symbols();
        let ghost end = paper.model();
        let mut a: usize = 0;
        proof {
            assert(end.accounts + closing(end.broker, texts(names@).take(0), ts) =~= end.accounts);
        }
        while a < names.len()
            invariant
                a <= names@.len(),
                paper.broker@ == end.broker,
                fill_views(paper.fills@) == end.fills,
                account_views(paper.accounts@) == end.accounts + closing(
                    end.broker,
                    texts(names@).take(a as int),
                    ts,
                ),
            decreases names@.len() - a,
        {
            let ghost upto = texts(names@).take(a + 1);
            let ghost before = account_views(paper.accounts@);
            proof {
                assert(upto.drop_last() =~= texts(names@).take(a as int));
                assert(upto.last() == names@[a as int]@);
            }
            if let Some(s) = paper.broker.account_snapshot(names[a].as_str(), ts) {
                let ghost view = s@;
                paper.accounts.push(s);
                proof {
                    assert(account_views(paper.accounts@) =~= before.push(view));
                    assert(before.push(view) =~= end.accounts + closing(end.broker, upto, ts));
                }
            }
            a = a + 1;
        }
        proof {
            assert(texts(names@).take(names@.len() as int) =~= texts(names@));
        }
    }
    PaperResult {
        initial_cash_usdt: config.initial_cash_usdt,
        fills: paper.fills,
        account_snapshots: paper.accounts,
    }
}

/// How many of the first `k` places are orders.
spec fn orders_among(ranks: Seq<int>, n: int, k: nat) -> int
    decreases k,
{
    if k == 0 {
        0
    } else {
        orders_among(ranks, n, (k - 1) as nat) + if ranks[k - 1] < n {
            0int
        } else {
            1
        }
    }
}

proof fn lemma_orders_among(keys: Seq<(i64, u64)>, ranks: Seq<int>, n: int, k: nat)
    requires
        is_ranking(keys, ranks),
        0 <= n <= keys.len(),
        k < ranks.len(),
    ensures
        0 <= orders_among(ranks, n, k),
        ranks[k as int] >= n ==> orders_among(ranks, n, k) < keys.len() - n,
{
    let room = vstd::set_lib::set_int_range(n, keys.len() as int);
    vstd::set_lib::lemma_int_range(n, keys.len() as int);
    lemma_orders_counted(keys, ranks, n, k + 1);
    let used = order_places(ranks, n, k + 1);
    assert(used.subset_of(room)) by {
        assert forall|i: int| used.contains(i) implies room.contains(i) by {
            lemma_order_places(keys, ranks, n, k + 1, i);
        }
    }
    vstd::set_lib::lemma_len_subset(used, room);
    lemma_orders_counted(keys, ranks, n, k);
}

/// The places of orders among the first `k`.
spec fn order_places(ranks: Seq<int>, n: int, k: nat) -> Set<int>
    decreases k,
{
    if k == 0 {
        Set::empty()
    } else if ranks[k - 1] < n {
        order_places(ranks, n, (k - 1) as nat)
    } else {
        order_places(ranks, n, (k - 1) as nat).insert(ranks[k - 1])
    }
}

proof fn lemma_order_places(
    keys: Seq<(i64, u64)>,
    ranks: Seq<int>,
    n: int,
    k: nat,
    i: int,
)
    requires
        is_ranking(keys, ranks),
        k <= ranks.len(),
        order_places(ranks, n, k).contains(i),
    ensures
        n <= i < keys.len(),
        exists|a: int| 0 <= a < k && #[trigger] ranks[a] == i,
    decreases k,
{
    if k > 0 {
        assert(0 <= ranks[k - 1] < keys.len());
        if i != ranks[k - 1] || ranks[k - 1] < n {
            lemma_order_places(keys, ranks, n, (k - 1) as nat, i);
        }
    }
}

proof fn lemma_orders_counted(keys: Seq<(i64, u64)>, ranks: Seq<int>, n: int, k: nat)
    requires
        is_ranking(keys, ranks),
        k <= ranks.len(),
    ensures
        order_places(ranks, n, k).finite(),
        order_places(ranks, n, k).len() == orders_among(ranks, n, k),
    decreases k,
{
    if k > 0 {
        let before = order_places(ranks, n, (k - 1) as nat);
        lemma_orders_counted(keys, ranks, n, (k - 1) as nat);
        if ranks[k - 1] >= n && before.contains(ranks[k - 1]) {
            lemma_order_places(keys, ranks, n, (k - 1) as nat, ranks[k - 1]);
            let a = choose|a: int| 0 <= a < k - 1 && #[trigger] ranks[a] == ranks[k - 1];
            assert(precedes(keys, ranks[a], ranks[k - 1]));
        }
    }
}

proof fn lemma_quote_keeps_counts(s: PaperModel, t: BboTick, n: int)
    requires
        s.broker.counts_within(n),
    ensures
        s.on_quote(t).broker.counts_within(n),
{
    assert(s.on_quote(t).broker.portfolios == s.broker.portfolios);
}

proof fn lemma_fills_counted(
    ticks: Seq<BboTick>,
    orders: Seq<OrderWithDecision>,
    config: PaperBrokerConfig,
    ranks: Seq<int>,
    k: nat,
)
    ensures
        paper_after(ticks, orders, config, ranks, k).fills.len() == orders_among(
            ranks,
            ticks.len() as int,
            k,
        ),
    decreases k,
{
    if k > 0 {
        lemma_fills_counted(ticks, orders, config, ranks, (k - 1) as nat);
    }
}

proof fn lemma_order_is_placed(ranks: Seq<int>, n: int, k: nat, a: int)
    requires
        0 <= a < k,
        ranks[a] >= n,
    ensures
        order_places(ranks, n, k).contains(ranks[a]),
    decreases k,
{
    if a < k - 1 {
        lemma_order_is_placed(ranks, n, (k - 1) as nat, a);
    }
}

/// Every order has its fill, be it a rejection.
pub proof fn law_one_fill_per_order(
    ticks: Seq<BboTick>,
    orders: Seq<OrderWithDecision>,
    config: PaperBrokerConfig,
)
    ensures
        paper_end(ticks, orders, config).fills.len() == orders.len(),
{
    let keys = paper_keys(ticks, orders);
    law_ranking_exists(keys);
    let ranks = ranking_of(keys);
    let n = ticks.len() as int;
    let k = keys.len();
    lemma_fills_counted(ticks, orders, config, ranks, k);
    lemma_orders_counted(keys, ranks, n, k);
    let used = order_places(ranks, n, k);
    let room = vstd::set_lib::set_int_range(n, k as int);
    vstd::set_lib::lemma_int_range(n, k as int);
    assert forall|i: int| used.contains(i) <==> room.contains(i) by {
        if used.contains(i) {
            lemma_order_places(keys, ranks, n, k, i);
        }
        if room.contains(i) {
            lemma_ranking_is_complete(keys, ranks, i);
            let a = choose|a: int| 0 <= a < ranks.len() && #[trigger] ranks[a] == i;
            lemma_order_is_placed(ranks, n, k, a);
        }
    }
    assert(used =~= room);
}

/// The orders by moment; those of one moment in the order in which they were given.
pub open spec fn order_keys(orders: Seq<OrderWithDecision>) -> Seq<(i64, u64)> {
    orders.map_values(|o: OrderWithDecision| (o.decision.ts_exchange, 0u64))
}

/// The orders among the first `k` places, by their numbers.
spec fn order_list(ranks: Seq<int>, n: int, k: nat) -> Seq<int>
    decreases k,
{
    if k == 0 {
        Seq::empty()
    } else if ranks[k - 1] < n {
        order_list(ranks, n, (k - 1) as nat)
    } else {
        order_list(ranks, n, (k - 1) as nat).push(ranks[k - 1] - n)
    }
}

/// The `i`-th order stands at a place of its own, later than the orders before it, and its fill
/// is the `i`-th.
proof fn lemma_order_list(
    ticks: Seq<BboTick>,
    orders: Seq<OrderWithDecision>,
    config: PaperBrokerConfig,
    ranks: Seq<int>,
    k: nat,
    i: int,
) -> (a: int)
    requires
        0 <= i < order_list(ranks, ticks.len() as int, k).len(),
    ensures
        ({
            let n = ticks.len() as int;
            let list = order_list(ranks, n, k);
            let before = paper_after(ticks, orders, config, ranks, a as nat);
            let o = orders[list[i]];
            &&& 0 <= a < k
            &&& ranks[a] >= n
            &&& list[i] == ranks[a] - n
            &&& order_list(ranks, n, a as nat).len() == i
            &&& before.fills.len() == i
            &&& i < paper_after(ticks, orders, config, ranks, k).fills.len()
            &&& paper_after(ticks, orders, config, ranks, k).fills[i] == executed(
                before.broker,
                o.order,
                o.decision.ts_exchange,
            ).1
        }),
    decreases k,
{
    let n = ticks.len() as int;
    let shorter = order_list(ranks, n, (k - 1) as nat);
    lemma_lists_agree(ranks, n, (k - 1) as nat);
    lemma_fills_counted(ticks, orders, config, ranks, (k - 1) as nat);
    if i < shorter.len() {
        lemma_order_list(ticks, orders, config, ranks, (k - 1) as nat, i)
    } else {
        k - 1
    }
}

proof fn lemma_lists_agree(ranks: Seq<int>, n: int, k: nat)
    ensures
        order_list(ranks, n, k).len() == orders_among(ranks, n, k),
    decreases k,
{
    if k > 0 {
        lemma_lists_agree(ranks, n, (k - 1) as nat);
    }
}

proof fn lemma_list_grows(ranks: Seq<int>, n: int, a: nat, b: nat)
    requires
        a <= b,
    ensures
        order_list(ranks, n, a).len() <= order_list(ranks, n, b).len(),
    decreases b,
{
    if a < b {
        lemma_list_grows(ranks, n, a, (b - 1) as nat);
    }
}

/// The orders among all places are the ranking of the orders.
proof fn lemma_orders_are_ranked(
    ticks: Seq<BboTick>,
    orders: Seq<OrderWithDecision>,
    config: PaperBrokerConfig,
)
    ensures
        ({
            let keys = paper_keys(ticks, orders);
            order_list(ranking_of(keys), ticks.len() as int, keys.len()) == ranking_of(
                order_keys(orders),
            )
        }),
{
    let keys = paper_keys(ticks, orders);
    let own = order_keys(orders);
    let n = ticks.len() as int;
    let ranks = ranking_of(keys);
    let list = order_list(ranks, n, keys.len());
    law_ranking_exists(keys);
    law_ranking_exists(own);
    law_one_fill_per_order(ticks, orders, config);
    lemma_fills_counted(ticks, orders, config, ranks, keys.len());
    lemma_lists_agree(ranks, n, keys.len());
    assert forall|i: int| 0 <= i < list.len() implies 0 <= #[trigger] list[i] < own.len() by {
        let a = lemma_order_list(ticks, orders, config, ranks, keys.len(), i);
        assert(0 <= ranks[a] < keys.len());
    }
    assert forall|i: int, j: int| 0 <= i < j < list.len() implies precedes(
        own,
        #[trigger] list[i],
        #[trigger] list[j],
    ) by {
        let a = lemma_order_list(ticks, orders, config, ranks, keys.len(), i);
        let b = lemma_order_list(ticks, orders, config, ranks, keys.len(), j);
        if b <= a {
            lemma_list_grows(ranks, n, b as nat, a as nat);
        }
        assert(0 <= ranks[a] < keys.len() && 0 <= ranks[b] < keys.len());
        assert(precedes(keys, ranks[a], ranks[b]));
        assert(keys[ranks[a]] == (orders[list[i]].decision.ts_exchange, 1u64));
        assert(keys[ranks[b]] == (orders[list[j]].decision.ts_exchange, 1u64));
    }
    assert(is_ranking(own, list));
    law_ranking_is_unique(own, list, ranking_of(own));
}

/// The `i`-th fill is that of the `i`-th order by moment, orders of one moment in the order in
/// which they were given. The broker executes it once it has seen exactly the quotes that are not
/// later than the order, and the orders before it.
pub proof fn law_fills_follow_the_orders(
    ticks: Seq<BboTick>,
    orders: Seq<OrderWithDecision>,
    config: PaperBrokerConfig,
    i: int,
) -> (k: int)
    requires
        0 <= i < orders.len(),
    ensures
        is_ranking(order_keys(orders), ranking_of(order_keys(orders))),
        ({
            let ranks = ranking_of(paper_keys(ticks, orders));
            let j = ranking_of(order_keys(orders))[i];
            let o = orders[j];
            let before = paper_after(ticks, orders, config, ranks, k as nat);
            &&& 0 <= k < ranks.len()
            &&& ranks[k] == ticks.len() + j
            &&& before.fills.len() == i
            &&& paper_end(ticks, orders, config).fills[i] == executed(
                before.broker,
                o.order,
                o.decision.ts_exchange,
            ).1
            &&& forall|t: int|
                0 <= t < ticks.len() ==> (#[trigger] ticks[t].ts_exchange
                    <= o.decision.ts_exchange <==> ranks.take(k).contains(t))
        }),
{
    let keys = paper_keys(ticks, orders);
    let own = order_keys(orders);
    let n = ticks.len() as int;
    let ranks = ranking_of(keys);
    law_ranking_exists(keys);
    law_ranking_exists(own);
    lemma_orders_are_ranked(ticks, orders, config);
    let j = ranking_of(own)[i];
    let o = orders[j];
    assert(0 <= j < orders.len());
    let k = lemma_order_list(ticks, orders, config, ranks, keys.len(), i);
    assert(keys[ranks[k]] == (o.decision.ts_exchange, 1u64));
    assert forall|t: int| 0 <= t < ticks.len() implies (#[trigger] ticks[t].ts_exchange
        <= o.decision.ts_exchange <==> ranks.take(k).contains(t)) by {
        assert(keys[t] == (ticks[t].ts_exchange, 0u64));
        lemma_ranking_is_complete(keys, ranks, t);
        let a = choose|a: int| 0 <= a < ranks.len() && #[trigger] ranks[a] == t;
        if a < k {
            assert(precedes(keys, ranks[a], ranks[k]));
            assert(ranks.take(k)[a] == t);
        } else {
            assert(precedes(keys, ranks[k], ranks[a]));
            if ranks.take(k).contains(t) {
                let b = choose|b: int| 0 <= b < k && ranks.take(k)[b] == t;
                assert(ranks[b] == t && b < a);
                assert(precedes(keys, ranks[b], ranks[a]));
            }
        }
    }
    k
}

} // verus!
