//! What a replay promises of its decisions and orders, and how events are put in order.

use super::engine::{
    emitting, is_decision_run, is_run, is_snapshot_at, is_snapshot_run, paced, state_after, trading, windows_after, OrderWithDecision,
    ReplayResult,
};
use super::golden::{row_on, rows_on, PackLine};
use super::paper::{closing, paper_accounts, paper_after, paper_end, PaperModel};
use super::settings::{
    check_limits, first_of, override_limits, resolve_window, size_value, window_in, window_named,
};
use super::source::{event_keys, sorted_events, ReplayEvent};
use super::source_clickhouse::{events_read, range_clause};
use super::source_jsonl::{events_on, SourceLine};
use super::times::moment;
use crate::common::{
    Action, BboTick, Decision, FeatureSnapshot, FeaturesConfig, OrderSide, TradeTick,
};
use crate::executor::config::ExecutorConfig;
use crate::executor::decide::law_decisions_follow_the_engine;
use crate::executor::inference::InferenceEngine;
use crate::feature_engine::state::{after_ticks, emits, symbol_state};
use crate::num::double::double_int;
use crate::num::model::{double_format, less, quotient, truncated, zero, Num};
use crate::num::Double;
use crate::rank::{is_arrangement, law_ranking_exists, precedes, ranking_of};
use crate::sim_broker::paper_broker::{
    account_of, active_names, executed, quoted, BrokerModel, PaperBrokerConfig,
};
use crate::text::digits::{
    decimal_text, digit_run, is_digit, law_decimal_round_trip, lemma_digits_round_trip,
};
use crate::text::parts::{doubled, last_place, trimmed_end};
use crate::text::words::uppercase;
use vstd::prelude::*;

verus! {

/// A decision to trade.
pub open spec fn is_trade(d: Decision) -> bool {
    d.action != Action::NoTrade
}

/// The decisions to trade, in their order.
pub open spec fn trades_of(decisions: Seq<Decision>) -> Seq<Decision> {
    decisions.filter(|d: Decision| is_trade(d))
}

/// Every snapshot has its decision, with the moment and the symbol of the snapshot. Where orders
/// are wanted and execution is enabled, every decision to trade has its order, in the order of the
/// decisions: a long is bought, a short sold. Else there is none.
pub proof fn law_runs_carry_out_their_decisions<F: Fn(Double) -> Double, E: InferenceEngine>(
    ln: F,
    window: nat,
    c: ExecutorConfig,
    engine: E,
    wanted: bool,
    r: ReplayResult,
)
    requires
        is_run(ln, window, c, engine, wanted, r),
    ensures
        r.decisions@.len() == r.snapshots@.len(),
        forall|k: int|
            0 <= k < r.decisions@.len() ==> {
                &&& (#[trigger] r.decisions@[k])@.ts_exchange == r.snapshots@[k].ts_exchange
                &&& r.decisions@[k]@.symbol == r.snapshots@[k].symbol@
                &&& r.decisions@[k]@.model_version == engine.version()
            },
        r.orders@.len() == if wanted && c.execution_enabled {
            trades_of(r.decisions@).len()
        } else {
            0
        },
        r.orders_with_decisions@.len() == r.orders@.len(),
        forall|k: int|
            0 <= k < r.orders@.len() ==> {
                let o = (#[trigger] r.orders_with_decisions@[k]);
                let d = trades_of(r.decisions@)[k];
                &&& o.order == r.orders@[k]
                &&& o.decision@ == d@
                &&& o.order.symbol@ == d@.symbol
                &&& d.action == Action::Long ==> o.order.side == OrderSide::Buy
                &&& d.action == Action::Short ==> o.order.side == OrderSide::Sell
            },
{
    let ds = r.decisions@;
    let trades = trades_of(ds);
    lemma_trading_is_filter(ds);
    assert forall|k: int| 0 <= k < ds.len() implies {
        &&& (#[trigger] ds[k])@.ts_exchange == r.snapshots@[k].ts_exchange
        &&& ds[k]@.symbol == r.snapshots@[k].symbol@
        &&& ds[k]@.model_version == engine.version()
    } by {
        law_decisions_follow_the_engine(
            c,
            engine,
            state_after(ds.take(k), r.snapshots@[k].symbol@),
            r.snapshots@[k],
            ds[k]@,
        );
    }
    if wanted && c.execution_enabled {
        assert forall|k: int| 0 <= k < r.orders@.len() implies {
            let o = (#[trigger] r.orders_with_decisions@[k]);
            let d = trades[k];
            &&& o.order == r.orders@[k]
            &&& o.decision@ == d@
            &&& o.order.symbol@ == d@.symbol
            &&& d.action == Action::Long ==> o.order.side == OrderSide::Buy
            &&& d.action == Action::Short ==> o.order.side == OrderSide::Sell
        } by {
            let i = trading(ds)[k];
            assert(trades[k] == ds[i]);
            let o = r.orders@[k];
            assert(ds[i]@.symbol == r.snapshots@[i].symbol@);
            assert(r.orders_with_decisions@[k].order == o);
        }
    }
}

proof fn lemma_trading_is_filter(ds: Seq<Decision>)
    ensures
        trading(ds).len() == trades_of(ds).len(),
        forall|k: int|
            0 <= k < trading(ds).len() ==> 0 <= #[trigger] trading(ds)[k] < ds.len()
                && trades_of(ds)[k] == ds[trading(ds)[k]],
    decreases ds.len(),
{
    reveal(Seq::filter);
    if ds.len() > 0 {
        let before = ds.drop_last();
        lemma_trading_is_filter(before);
        let n = ds.len() - 1;
        if is_trade(ds.last()) {
            assert(trades_of(ds) == trades_of(before).push(ds.last()));
            assert(trading(ds) == trading(before).push(n));
        } else {
            assert(trades_of(ds) == trades_of(before));
            assert(trading(ds) == trading(before));
        }
        assert forall|k: int| 0 <= k < trading(ds).len() implies 0 <= #[trigger] trading(ds)[k]
            < ds.len() && trades_of(ds)[k] == ds[trading(ds)[k]] by {
            if k < trading(before).len() {
                assert(trading(ds)[k] == trading(before)[k]);
                assert(before[trading(before)[k]] == ds[trading(before)[k]]);
                assert(trades_of(ds)[k] == trades_of(before)[k]);
            } else {
                assert(trading(ds)[k] == n);
            }
        }
    }
}

/// Each trade comes at least the cooldown after what is remembered of its symbol.
#[verifier::opaque]
spec fn keeps_cooldown(ds: Seq<Decision>, cooldown: int) -> bool {
    forall|k: int|
        0 <= k < ds.len() && (#[trigger] ds[k]).action != Action::NoTrade && state_after(
            ds.take(k),
            ds[k].symbol@,
        ).last_trade_ts_ms > 0 ==> ds[k].ts_exchange - state_after(
            ds.take(k),
            ds[k].symbol@,
        ).last_trade_ts_ms >= cooldown
}

proof fn lemma_cooled_at(ds: Seq<Decision>, cooldown: int, k: int)
    requires
        keeps_cooldown(ds, cooldown),
        0 <= k < ds.len(),
    ensures
        ({
            let s = state_after(ds.take(k), ds[k].symbol@);
            ds[k].action != Action::NoTrade && s.last_trade_ts_ms > 0 ==> ds[k].ts_exchange
                - s.last_trade_ts_ms >= cooldown
        }),
{
    reveal(keeps_cooldown);
    assert(ds[k] == ds[k]);
}

/// What is remembered of a symbol after some decisions is at least as late as each of its trades.
proof fn lemma_last_trade(ds: Seq<Decision>, cooldown: int, n: int, i: int)
    requires
        keeps_cooldown(ds, cooldown),
        cooldown > 0,
        0 <= i < n <= ds.len(),
        ds[i].action != Action::NoTrade,
        ds[i].ts_exchange > 0,
    ensures
        state_after(ds.take(n), ds[i].symbol@).last_trade_ts_ms >= ds[i].ts_exchange,
    decreases n,
{
    let symbol = ds[i].symbol@;
    let upto = ds.take(n);
    let k = n - 1;
    let last = ds[k];
    assert(upto.drop_last() =~= ds.take(k));
    assert(upto.last() == last);
    assert(last@.action == last.action && last@.ts_exchange == last.ts_exchange);
    if i < k {
        lemma_last_trade(ds, cooldown, k, i);
        lemma_cooled_at(ds, cooldown, k);
    }
}

/// A trade comes no sooner than the cooldown after the last one of its symbol.
proof fn lemma_trade_time<E: InferenceEngine>(
    c: ExecutorConfig,
    engine: E,
    r: ReplayResult,
    k: int,
)
    requires
        is_decision_run(c, engine, r.snapshots@, r.decisions@),
        0 <= k < r.decisions@.len(),
        c.cooldown_ms > 0,
    ensures
        ({
            let d = r.decisions@[k];
            let s = state_after(r.decisions@.take(k), d.symbol@);
            d.action != Action::NoTrade && s.last_trade_ts_ms > 0 ==> d.ts_exchange
                - s.last_trade_ts_ms >= c.cooldown_ms
        }),
{
    let d = r.decisions@[k];
    let snap = r.snapshots@[k];
    let s = state_after(r.decisions@.take(k), snap.symbol@);
    assert(d@.ts_exchange == d.ts_exchange && d@.symbol == d.symbol@ && d@.action == d.action);
    law_decisions_follow_the_engine(c, engine, s, snap, d@);
}

/// Between two trades of a symbol at least the cooldown passes.
pub proof fn law_trades_keep_the_cooldown<F: Fn(Double) -> Double, E: InferenceEngine>(
    ln: F,
    window: nat,
    c: ExecutorConfig,
    engine: E,
    wanted: bool,
    r: ReplayResult,
    i: int,
    j: int,
)
    requires
        is_run(ln, window, c, engine, wanted, r),
        0 <= i < j < r.decisions@.len(),
        r.decisions@[i].symbol@ == r.decisions@[j].symbol@,
        r.decisions@[i].action != Action::NoTrade,
        r.decisions@[j].action != Action::NoTrade,
        r.decisions@[i].ts_exchange > 0,
        c.cooldown_ms > 0,
    ensures
        r.decisions@[j].ts_exchange - r.decisions@[i].ts_exchange >= c.cooldown_ms,
{
    let ds = r.decisions@;
    assert forall|k: int|
        0 <= k < ds.len() && (#[trigger] ds[k]).action != Action::NoTrade && state_after(
            ds.take(k),
            ds[k].symbol@,
        ).last_trade_ts_ms > 0 implies ds[k].ts_exchange - state_after(
        ds.take(k),
        ds[k].symbol@,
    ).last_trade_ts_ms >= c.cooldown_ms by {
        lemma_trade_time(c, engine, r, k);
    }
    assert(keeps_cooldown(ds, c.cooldown_ms as int)) by {
        reveal(keeps_cooldown);
    }
    lemma_last_trade(ds, c.cooldown_ms as int, j, i);
    lemma_trade_time(c, engine, r, j);
}

/// Sorting rearranges the events and loses none: they come by moment, those of one moment by
/// their number, and equal ones as they were given.
pub proof fn law_sorting_is_stable(events: Seq<ReplayEvent>) -> (order: Seq<int>)
    ensures
        ({
            let sorted = sorted_events(events);
            &&& is_arrangement(events.len(), order)
            &&& sorted.len() == events.len()
            &&& forall|a: int|
                0 <= a < sorted.len() ==> #[trigger] sorted[a] == events[order[a]]
            &&& forall|a: int, b: int|
                0 <= a < b < sorted.len() ==> {
                    let (x, y) = (#[trigger] sorted[a], #[trigger] sorted[b]);
                    ||| moment_of(x) < moment_of(y)
                    ||| moment_of(x) == moment_of(y) && number_of(x) < number_of(y)
                    ||| moment_of(x) == moment_of(y) && number_of(x) == number_of(y) && order[a]
                        < order[b]
                }
        }),
{
    let keys = event_keys(events);
    law_ranking_exists(keys);
    let order = ranking_of(keys);
    assert forall|a: int, b: int|
        0 <= a < order.len() && 0 <= b < order.len() && a != b implies order[a] != order[b] by {
        if a < b {
            assert(precedes(keys, order[a], order[b]));
        } else {
            assert(precedes(keys, order[b], order[a]));
        }
    }
    let sorted = sorted_events(events);
    assert forall|a: int, b: int| 0 <= a < b < sorted.len() implies {
        let (x, y) = (#[trigger] sorted[a], #[trigger] sorted[b]);
        ||| moment_of(x) < moment_of(y)
        ||| moment_of(x) == moment_of(y) && number_of(x) < number_of(y)
        ||| moment_of(x) == moment_of(y) && number_of(x) == number_of(y) && order[a] < order[b]
    } by {
        assert(precedes(keys, order[a], order[b]));
        assert(0 <= order[a] < events.len() && 0 <= order[b] < events.len());
    }
    order
}

/// The moment of an event at the exchange.
pub open spec fn moment_of(e: ReplayEvent) -> i64 {
    match e {
        ReplayEvent::Bbo(t) => t.ts_exchange,
        ReplayEvent::Trade(t) => t.ts_exchange,
    }
}

/// The number that the exchange gave an event.
pub open spec fn number_of(e: ReplayEvent) -> u64 {
    match e {
        ReplayEvent::Bbo(t) => t.update_id,
        ReplayEvent::Trade(t) => t.exchange_id,
    }
}

/// Two events are equal exactly where moment and number are.
pub proof fn law_events_are_known_by_moment_and_number(e: ReplayEvent)
    ensures
        e.time() == moment_of(e),
        e.id() == number_of(e),
        e matches ReplayEvent::Bbo(t) ==> e.name() == t.symbol@,
        e matches ReplayEvent::Trade(t) ==> e.name() == t.symbol@,
{
}

/// All quotes and all trades that were read are events, the quotes first.
pub proof fn law_events_read_are_all_rows(bbos: Seq<BboTick>, trades: Seq<TradeTick>, i: int)
    ensures
        events_read(bbos, trades).len() == bbos.len() + trades.len(),
        0 <= i < bbos.len() ==> events_read(bbos, trades)[i] == ReplayEvent::Bbo(bbos[i]),
        0 <= i < trades.len() ==> events_read(bbos, trades)[bbos.len() + i]
            == ReplayEvent::Trade(trades[i]),
{
}

/// A recorded line adds its event; blank ones add nothing.
pub proof fn law_recorded_lines_add_their_events(lines: Seq<SourceLine>, line: SourceLine)
    ensures
        events_on(Seq::empty()) == Seq::<ReplayEvent>::empty(),
        line matches SourceLine::Event(e) ==> events_on(lines.push(line)) == events_on(lines).push(
            e,
        ),
        line matches SourceLine::Tick(t) ==> events_on(lines.push(line)) == events_on(lines).push(
            ReplayEvent::Bbo(t),
        ),
        line is Blank ==> events_on(lines.push(line)) == events_on(lines),
{
    assert(lines.push(line).drop_last() =~= lines);
    assert(events_on(lines.push(line)) =~= events_on(lines) + line.event());
}

/// A line of a pack adds its value: under its own number, or under that of the line where it has
/// none.
pub proof fn law_pack_lines_add_their_values<T>(lines: Seq<PackLine<T>>, line: PackLine<T>)
    requires
        lines.len() <= u64::MAX,
    ensures
        rows_on(Seq::<PackLine<T>>::empty()) == Seq::<(u64, T)>::empty(),
        line matches PackLine::Numbered(seq, t) ==> rows_on(lines.push(line)) == rows_on(
            lines,
        ).push((seq, t)),
        line matches PackLine::Plain(t) ==> rows_on(lines.push(line)) == rows_on(lines).push(
            (lines.len() as u64, t),
        ),
        line is Blank ==> rows_on(lines.push(line)) == rows_on(lines),
{
    assert(lines.push(line).drop_last() =~= lines);
    let more = rows_on(lines.push(line));
    assert(more =~= rows_on(lines) + row_on(line, lines.len() as int));
}

/// A moment written as a number of milliseconds is that number.
pub proof fn law_moments_are_read_back(v: i64, other: Option<i64>)
    ensures
        moment(decimal_text(v as int), other) == Some(v),
{
    law_decimal_round_trip(v as int);
}

/// A query names its symbol, and its range includes both ends.
pub proof fn law_queries_include_both_ends(symbol: Seq<char>, from: Seq<char>, to: Seq<char>)
    requires
        forall|i: int| 0 <= i < symbol.len() ==> #[trigger] symbol[i] != '\'',
    ensures
        range_clause(symbol, from, to) == " WHERE symbol = '"@ + symbol
            + "' AND ts_exchange >= '"@ + from + "' AND ts_exchange <= '"@ + to + "'"@,
{
    lemma_nothing_doubled(symbol);
}

proof fn lemma_nothing_doubled(s: Seq<char>)
    requires
        forall|i: int| 0 <= i < s.len() ==> #[trigger] s[i] != '\'',
    ensures
        doubled(s, '\'') == s,
    decreases s.len(),
{
    if s.len() > 0 {
        let before = s.drop_last();
        assert forall|i: int| 0 <= i < before.len() implies #[trigger] before[i] != '\'' by {
            assert(before[i] == s[i]);
        }
        lemma_nothing_doubled(before);
        assert(s[s.len() - 1] != '\'');
        assert(before.push(s.last()) =~= s);
    } else {
        assert(doubled(s, '\'') =~= s);
    }
}

/// At a positive speed a later quote waits for the recorded time divided by the speed, in whole
/// milliseconds; without a speed, or for a quote that is not later, there is no wait.
pub proof fn law_waits_follow_the_speed(from: i64, to: i64, speed: Num)
    ensures
        !less(zero(), speed) || to <= from ==> paced(from, to, speed) == 0,
        less(zero(), speed) && to > from ==> paced(from, to, speed) == truncated(
            double_format(),
            quotient(double_format(), double_int(to - from), speed),
        ),
{
}

/// A quote is noted by the broker, and a snapshot of its account is taken where one can be and
/// the last one of the symbol, if any, is at least a second old.
pub proof fn law_quotes_are_sampled_every_second(m: PaperModel, t: BboTick)
    ensures
        ({
            let s = uppercase(t.symbol@);
            let after = m.on_quote(t);
            let broker = quoted(m.broker, t);
            let last: int = if m.last.contains_key(s) {
                m.last[s] as int
            } else {
                0
            };
            &&& after.broker == broker
            &&& after.fills == m.fills
            &&& match account_of(broker, s, t.ts_exchange) {
                Some(a) => if t.ts_exchange - last >= 1000 {
                    after.accounts == m.accounts.push(a) && after.last == m.last.insert(
                        s,
                        t.ts_exchange,
                    )
                } else {
                    after.accounts == m.accounts && after.last == m.last
                },
                None => after.accounts == m.accounts && after.last == m.last,
            }
        }),
{
}

/// An order is executed at the moment of its decision, its fill is kept, and a snapshot of the
/// account is taken right after it, however short the last one is ago.
pub proof fn law_orders_are_followed_by_a_snapshot(m: PaperModel, o: OrderWithDecision)
    ensures
        ({
            let ts = o.decision.ts_exchange;
            let s = uppercase(o.order.symbol@);
            let (broker, fill) = executed(m.broker, o.order, ts);
            let after = m.on_order(o);
            &&& after.broker == broker
            &&& after.fills == m.fills.push(fill)
            &&& match account_of(broker, s, ts) {
                Some(a) => after.accounts == m.accounts.push(a),
                None => after.accounts == m.accounts,
            }
        }),
{
}

/// At the end each open position has its account, at the given moment.
pub proof fn law_open_positions_close_the_accounts(
    m: BrokerModel,
    names: Seq<Seq<char>>,
    name: Seq<char>,
    ts: i64,
)
    ensures
        closing(m, Seq::empty(), ts).len() == 0,
        closing(m, names.push(name), ts) == match account_of(m, name, ts) {
            Some(a) => closing(m, names, ts).push(a),
            None => closing(m, names, ts),
        },
{
    assert(names.push(name).drop_last() =~= names);
}

/// A size written in decimal notation is that size.
pub proof fn law_sizes_are_read_back(n: usize)
    ensures
        size_value(decimal_text(n as int)) == Some(n),
{
    law_decimal_round_trip(n as int);
}

/// A window in seconds is written as its number and an `s`, and that is what it is read as.
pub proof fn law_windows_are_read_back(features: FeaturesConfig, n: usize)
    requires
        features.features@.len() > 0,
        features.features@[0].window@ == decimal_text(n as int) + seq!['s'],
    ensures
        window_in(features) == Some(n),
{
    let d = decimal_text(n as int);
    let text = d + seq!['s'];
    law_sizes_are_read_back(n);
    lemma_digits_round_trip(n as nat);
    assert(text.drop_last() =~= d);
    assert(text.last() == 's');
    assert(is_digit(d[d.len() - 1]));
    assert(d.last() != 's');
    reveal_with_fuel(trimmed_end, 3);
}

/// The window in the name of a pack is the number behind its last `w`.
pub proof fn law_pack_names_tell_the_window(name: String, before: Seq<char>, n: usize)
    requires
        name@ == before + seq!['w'] + decimal_text(n as int),
    ensures
        window_named(Some(name)) == Some(n),
{
    let s = name@;
    let d = decimal_text(n as int);
    let at = before.len() as int;
    law_sizes_are_read_back(n);
    lemma_digits_round_trip(n as nat);
    assert(s[at] == 'w');
    assert forall|i: int| at < i < s.len() implies is_digit(#[trigger] s[i]) by {
        assert(s[i] == d[i - at - 1]);
    }
    lemma_last_w(s, at);
    lemma_run(s, at + 1);
    assert(s.subrange(at + 1, s.len() as int) =~= d);
}

proof fn lemma_last_w(s: Seq<char>, at: int)
    requires
        0 <= at < s.len(),
        s[at] == 'w',
        forall|i: int| at < i < s.len() ==> is_digit(#[trigger] s[i]),
    ensures
        last_place(s, 'w') == Some(at),
    decreases s.len(),
{
    if at < s.len() - 1 {
        let t = s.drop_last();
        assert(is_digit(s[s.len() - 1]));
        assert(t[at] == 'w');
        assert forall|i: int| at < i < t.len() implies is_digit(#[trigger] t[i]) by {
            assert(t[i] == s[i]);
        }
        lemma_last_w(t, at);
    }
}

proof fn lemma_run(s: Seq<char>, i: int)
    requires
        0 <= i <= s.len(),
        forall|k: int| i <= k < s.len() ==> is_digit(#[trigger] s[k]),
    ensures
        digit_run(s, i) == s.len() - i,
    decreases s.len() - i,
{
    if i < s.len() {
        lemma_run(s, i + 1);
    }
}

/// What is given first goes before what is given second.
pub proof fn law_first_choice_wins(a: Option<usize>, b: Option<usize>)
    ensures
        a is Some ==> first_of(a, b) == a,
        a is None ==> first_of(a, b) == b,
{
}

/// The quotes of one symbol.
pub open spec fn quotes_of(ticks: Seq<BboTick>, symbol: Seq<char>) -> Seq<BboTick>
    decreases ticks.len(),
{
    if ticks.len() == 0 {
        Seq::empty()
    } else if ticks.last().symbol@ == symbol {
        quotes_of(ticks.drop_last(), symbol).push(ticks.last())
    } else {
        quotes_of(ticks.drop_last(), symbol)
    }
}

/// The window of a symbol depends on its own quotes alone.
pub proof fn law_windows_are_per_symbol(ticks: Seq<BboTick>, window: nat, symbol: Seq<char>)
    ensures
        symbol_state(windows_after(ticks, window), window, symbol) == after_ticks(
            symbol,
            window,
            quotes_of(ticks, symbol),
        ),
    decreases ticks.len(),
{
    if ticks.len() > 0 {
        let before = ticks.drop_last();
        law_windows_are_per_symbol(before, window, symbol);
        let own = quotes_of(before, symbol);
        assert(own.push(ticks.last()).drop_last() =~= own);
    }
}

/// The window of a replay is that of the variable where it holds a size, else that of the first
/// feature, else sixty.
pub proof fn law_windows_have_an_order(
    var: Option<String>,
    features: FeaturesConfig,
    text: String,
    n: usize,
    r: usize,
)
    requires
        call_ensures(resolve_window, (&var, &features), r),
    ensures
        text@ == decimal_text(n as int) && var == Some(text) ==> r == n,
        var is None && features.features@.len() == 0 ==> r == 60,
        var is None ==> (window_in(features) matches Some(w) ==> r == w),
{
    law_sizes_are_read_back(n);
}

/// A check runs without execution unless it is asked for, a replay with what its limits and the
/// overrides say.
pub proof fn law_overrides_replace_limits(
    config: ExecutorConfig,
    enabled: Option<bool>,
    latency: Option<u32>,
    checked: ExecutorConfig,
    replayed: ExecutorConfig,
)
    requires
        call_ensures(check_limits, (config, enabled), checked),
        call_ensures(override_limits, (config, enabled, latency), replayed),
    ensures
        enabled is None ==> !checked.execution_enabled && replayed.execution_enabled
            == config.execution_enabled,
        enabled matches Some(b) ==> checked.execution_enabled == b && replayed.execution_enabled
            == b,
        latency matches Some(l) ==> replayed.latency_max_ms == l,
        latency is None ==> replayed.latency_max_ms == config.latency_max_ms,
        checked.latency_max_ms == config.latency_max_ms,
        checked.cooldown_ms == config.cooldown_ms && replayed.cooldown_ms == config.cooldown_ms,
        checked.confidence_min == config.confidence_min && replayed.confidence_min
            == config.confidence_min,
        checked.hysteresis_enter == config.hysteresis_enter && replayed.hysteresis_enter
            == config.hysteresis_enter,
        checked.hysteresis_exit == config.hysteresis_exit && replayed.hysteresis_exit
            == config.hysteresis_exit,
        checked.allow_short == config.allow_short && replayed.allow_short == config.allow_short,
        checked.spread_max_pct == config.spread_max_pct && replayed.spread_max_pct
            == config.spread_max_pct,
{
}

/// A quote gives a snapshot where the window of its symbol emits one, and snapshots come in the
/// order of their quotes, each with the moment and the symbol of its own.
pub proof fn law_snapshots_come_from_their_quotes<F: Fn(Double) -> Double>(
    ln: F,
    window: nat,
    ticks: Seq<BboTick>,
    t: BboTick,
    snaps: Seq<FeatureSnapshot>,
    k: int,
)
    requires
        is_snapshot_run(ln, window, ticks, snaps),
        0 <= k < snaps.len(),
    ensures
        ({
            let s = symbol_state(windows_after(ticks, window), window, t.symbol@);
            emitting(ticks.push(t), window) == if emits(s, t) {
                emitting(ticks, window).push(ticks.len() as int)
            } else {
                emitting(ticks, window)
            }
        }),
        snaps.len() == emitting(ticks, window).len(),
        0 <= emitting(ticks, window)[k] < ticks.len(),
        snaps[k].ts_exchange == ticks[emitting(ticks, window)[k]].ts_exchange,
        snaps[k].symbol@ == ticks[emitting(ticks, window)[k]].symbol@,
{
    let more = ticks.push(t);
    assert(more.drop_last() =~= ticks);
    assert(more.take(ticks.len() as int) =~= ticks);
    let i = emitting(ticks, window)[k];
    assert(is_snapshot_at(ln, window, ticks, i, snaps[k]));
    law_windows_are_per_symbol(ticks.take(i), window, ticks[i].symbol@);
    lemma_symbol_stays(
        ticks[i].symbol@,
        window,
        quotes_of(ticks.take(i), ticks[i].symbol@),
    );
}

proof fn lemma_symbol_stays(symbol: Seq<char>, window: nat, ticks: Seq<BboTick>)
    ensures
        after_ticks(symbol, window, ticks).symbol == symbol,
    decreases ticks.len(),
{
    if ticks.len() > 0 {
        lemma_symbol_stays(symbol, window, ticks.drop_last());
    }
}

/// What is remembered of a symbol is its last trade: a trade of the symbol replaces it, and nothing
/// else does.
pub proof fn law_the_last_trade_is_remembered(ds: Seq<Decision>, d: Decision, symbol: Seq<char>)
    ensures
        ({
            let old = state_after(ds, symbol);
            let new = state_after(ds.push(d), symbol);
            &&& d.symbol@ == symbol && d.action != Action::NoTrade ==> new.last_action == d.action
                && new.last_trade_ts_ms == if d.ts_exchange > 0 {
                d.ts_exchange as int
            } else {
                0
            }
            &&& d.symbol@ != symbol || d.action == Action::NoTrade ==> new == old
        }),
        state_after(Seq::empty(), symbol).last_action == Action::NoTrade,
        state_after(Seq::empty(), symbol).last_trade_ts_ms == 0,
{
    assert(ds.push(d).drop_last() =~= ds);
    assert(d@.action == d.action && d@.ts_exchange == d.ts_exchange && d@.symbol == d.symbol@);
}

/// A simulation starts with the configured cash and nothing else, and ends with the accounts of
/// the open positions at the moment of the last quote.
pub proof fn law_simulations_start_and_end(
    ticks: Seq<BboTick>,
    orders: Seq<OrderWithDecision>,
    config: PaperBrokerConfig,
)
    ensures
        ({
            let start = paper_after(ticks, orders, config, Seq::empty(), 0);
            let end = paper_end(ticks, orders, config);
            &&& start.broker.cash == config.initial_cash_usdt@
            &&& start.broker.config == config
            &&& start.fills.len() == 0 && start.accounts.len() == 0
            &&& ticks.len() == 0 ==> paper_accounts(ticks, orders, config) == end.accounts
            &&& ticks.len() > 0 ==> paper_accounts(ticks, orders, config) == end.accounts
                + closing(end.broker, active_names(end.broker), ticks.last().ts_exchange)
        }),
{
}

} // verus!
