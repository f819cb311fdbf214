use quantum_sentry::common::Action as ContractAction;
use quantum_sentry::json::Json;
use quantum_sentry::num::Double;
use quantum_sentry::sim_broker::listener::{tradable, Listener};
use quantum_sentry::sim_broker::model::{norm_symbol, MarketContextEvent, MarketEvent};
use quantum_sentry::sim_broker::spot;
use quantum_sentry::sim_broker::strategy::{
    symbol_context_from_wallet, trade_action_to_contract_action, trend_action, trend_input,
    PingPongStrategy, Strategy, TradeAction, TrendFollowStrategy,
};
use quantum_sentry::sim_broker::wallet::{PositionSide, Wallet};
use ta::indicators::{ExponentialMovingAverage, RelativeStrengthIndex};
use ta::Next;

fn d(x: f64) -> Double {
    Double::from_bits(x.to_bits())
}

fn wide(x: Double) -> f64 {
    f64::from_bits(x.to_bits())
}

fn context(symbol: &str, mark: f64) -> MarketContextEvent {
    MarketContextEvent {
        ts_exchange: 1,
        ts_ingest: 2,
        symbol: symbol.to_string(),
        mark_price: Some(d(mark)),
        funding_rate: None,
        open_interest: None,
        next_funding_time: None,
        source: None,
    }
}

fn market(symbol: &str, price: &str) -> MarketEvent {
    MarketEvent {
        stream: "s".to_string(),
        event_type: "trade".to_string(),
        ts_ingest: "0".to_string(),
        data: Json::Object(vec![
            ("s".to_string(), Json::Text(symbol.to_string())),
            ("p".to_string(), Json::Text(price.to_string())),
        ]),
    }
}

#[test]
fn test_fee_logic() {
    let mut wallet = Wallet::new();
    wallet.usdt_balance = d(2000.0);

    let price = 100.0;
    let margin = 1000.0;

    wallet.execute_buy_with_slippage("BTCUSDT", d(price), d(margin), Some(d(0.0)), d(0.1));

    assert!((wide(wallet.usdt_balance) - 999.6).abs() < 1e-6);

    let sym = norm_symbol("BTCUSDT");
    let pos = wallet
        .positions
        .get(&sym)
        .unwrap_or_else(|| panic!("Position should exist"));
    assert!((wide(pos.amount) - 10.0).abs() < 1e-6);
}

#[test]
fn test_slippage_logic() {
    let mut wallet = Wallet::new();
    wallet.usdt_balance = d(1000.0);

    let price = 100.0;
    let slippage = 0.0005;

    wallet.execute_buy_with_slippage("BTCUSDT", d(price), d(100.0), Some(d(slippage)), d(0.0));

    let sym = norm_symbol("BTCUSDT");
    let pos = wallet
        .positions
        .get(&sym)
        .unwrap_or_else(|| panic!("Position should exist"));
    let expected_exec_price = price * (1.0 + slippage);
    assert!((wide(pos.average_entry_price) - expected_exec_price).abs() < 1e-6);
    assert!(wide(pos.average_entry_price) > price);
}

#[test]
fn test_insufficient_funds() {
    let mut wallet = Wallet::new();
    wallet.usdt_balance = d(9.0);

    wallet.execute_buy_with_slippage("BTCUSDT", d(100.0), d(100.0), Some(d(0.0)), d(0.0));

    assert!(!wallet.has_position("BTCUSDT"));
    assert_eq!(wide(wallet.usdt_balance), 9.0);
}

#[test]
fn a_long_has_its_exact_numbers() {
    let mut w = Wallet::new();
    w.execute_open_long("btcusdt", d(50_000.0), d(120.0), 3, d(0.0003));
    let exec = 50_000.0f64 * (1.0 + 0.0003);
    let notional = 120.0f64 * 3.0;
    let amount = notional / exec;
    assert_eq!(wide(w.usdt_balance), 1000.0 - (120.0 + notional * 0.0004));
    let p = w.positions.get("BTCUSDT").unwrap();
    assert_eq!(p.side, PositionSide::Long);
    assert_eq!(p.leverage, 3);
    assert_eq!(wide(p.average_entry_price), exec);
    assert_eq!(wide(p.amount), amount);
    assert_eq!(wide(p.margin_used), 120.0);
    assert_eq!(wide(p.size_notional), notional);
    assert_eq!(wide(p.liquidation_price), exec * (1.0 - 1.0 / 3.0));
    assert_eq!(wide(p.current_value), amount * exec);
    assert_eq!(wide(p.unrealized_pnl), 0.0);
    assert_eq!(w.position_entry_price("BtcUsdt").map(wide), Some(exec));
}

#[test]
fn a_short_is_valued_at_its_mark_price_at_once() {
    let mut w = Wallet::new();
    w.update_context(&context("ethusdt", 2000.0));
    w.execute_open_short("ETHUSDT", d(1.0), d(50.0), 0, d(0.0001));
    let exec = 2000.0f64 * (1.0 - 0.0001);
    let amount = 50.0f64 / exec;
    let p = w.positions.get("ETHUSDT").unwrap();
    assert_eq!(p.leverage, 1);
    assert_eq!(wide(p.average_entry_price), exec);
    assert_eq!(wide(p.liquidation_price), exec * (1.0 + 1.0));
    assert_eq!(wide(p.current_value), amount * 2000.0);
    assert_eq!(wide(p.unrealized_pnl), (exec - 2000.0) * amount);
    assert_eq!(
        wide(w.net_worth()),
        wide(w.usdt_balance) + (50.0 + (exec - 2000.0) * amount)
    );
}

#[test]
fn a_short_needs_a_positive_price() {
    let mut w = Wallet::new();
    w.execute_open_short("X", d(0.0), d(50.0), 1, d(0.0));
    assert!(!w.has_position("X"));
    w.execute_open_short_with_slippage("X", d(1.0), d(50.0), 1, Some(d(1.0)), d(0.0));
    assert!(!w.has_position("X"));
    assert_eq!(wide(w.usdt_balance), 1000.0);
}

#[test]
fn orders_that_cannot_be_paid_change_nothing() {
    let mut w = Wallet::new();
    w.execute_open_long("X", d(1.0), d(1000.0), 1, d(0.0));
    assert_eq!(wide(w.usdt_balance), 1000.0);
    w.execute_open_long("X", d(1.0), d(100.0), 1, d(0.0));
    let after = w.usdt_balance;
    w.execute_open_short("x", d(1.0), d(100.0), 1, d(0.0));
    assert_eq!(w.usdt_balance, after);
    assert_eq!(w.positions.len(), 1);
}

#[test]
fn closing_pays_out_margin_and_gain() {
    let mut w = Wallet::new();
    w.execute_buy("X", d(10.0), d(100.0), d(0.0));
    w.execute_buy("Y", d(10.0), d(100.0), d(0.0));
    let before = wide(w.usdt_balance);
    w.execute_close("x", d(11.0), d(0.0002));
    let exec = 11.0f64 * (1.0 - 0.0002);
    let gain = (exec - 10.0) * 10.0;
    assert_eq!(wide(w.usdt_balance), before + (100.0 + gain - 10.0 * exec * 0.0004));
    assert!(!w.has_position("X"));
    assert!(w.has_position("Y"));
    let same = w.usdt_balance;
    w.execute_sell("X", d(11.0), d(0.0));
    assert_eq!(w.usdt_balance, same);
    w.execute_sell_with_slippage("Y", d(10.0), Some(d(0.0)), d(0.5));
    assert!(!w.has_position("Y"));
}

#[test]
fn funding_is_applied_once_per_funding_time() {
    let mut w = Wallet::new();
    w.execute_open_long("X", d(10.0), d(100.0), 2, d(0.0));
    let mut evt = context("x", 10.0);
    evt.funding_rate = Some(d(0.01));
    evt.next_funding_time = Some(500);
    w.update_context(&evt);
    let before = wide(w.usdt_balance);
    w.apply_funding_if_due(499);
    assert_eq!(wide(w.usdt_balance), before);
    w.apply_funding_if_due(500);
    assert_eq!(wide(w.usdt_balance), before - 200.0 * 0.01);
    w.apply_funding_if_due(501);
    assert_eq!(wide(w.usdt_balance), before - 200.0 * 0.01);
    evt.next_funding_time = Some(900);
    evt.funding_rate = Some(d(-0.005));
    w.update_context(&evt);
    w.apply_funding_if_due(900);
    assert_eq!(wide(w.usdt_balance), before - 200.0 * 0.01 - 200.0 * -0.005);
}

#[test]
fn only_finite_context_is_taken_in() {
    let mut w = Wallet::new();
    w.update_context(&context("X", f64::NAN));
    assert!(w.mark_prices.get("X").is_none());
    let mut evt = context("X", 5.0);
    evt.open_interest = Some(d(f64::INFINITY));
    evt.funding_rate = Some(d(0.1));
    w.update_context(&evt);
    assert_eq!(w.mark_prices.get("X").map(|x| wide(*x)), Some(5.0));
    assert!(w.open_interest.get("X").is_none());
    assert!(w.funding.get("X").is_none());
    let ctx = symbol_context_from_wallet(&w, "x");
    assert_eq!(ctx.mark_price.map(wide), Some(5.0));
    assert!(ctx.funding_rate.is_none() && ctx.next_funding_time.is_none());
}

#[test]
fn valuing_twice_is_valuing_once() {
    let mut w = Wallet::new();
    w.execute_open_long("X", d(10.0), d(100.0), 1, d(0.0));
    w.update_context(&context("X", 12.0));
    w.update_pnl();
    let once = w.positions.get("X").unwrap().unrealized_pnl;
    assert_eq!(wide(once), 20.0);
    w.update_pnl();
    assert_eq!(w.positions.get("X").unwrap().unrealized_pnl, once);
    w.update_context(&context("X", -1.0));
    w.update_pnl();
    assert_eq!(w.positions.get("X").unwrap().unrealized_pnl, once);
}

#[test]
fn ping_pong_opens_and_takes_profit() {
    let mut s = PingPongStrategy;
    let mut w = Wallet::new();
    let ctx = symbol_context_from_wallet(&w, "X");
    let open = s.evaluate(&market("x", "10"), &w, &ctx);
    assert_eq!(open, TradeAction::OpenLong { usdt_margin: d(100.0), leverage: 1 });
    w.execute_open_long("X", d(10.0), d(100.0), 1, d(0.0));
    assert_eq!(s.evaluate(&market("x", "10.04"), &w, &ctx), TradeAction::Hold);
    assert_eq!(s.evaluate(&market("x", "10.06"), &w, &ctx), TradeAction::ClosePosition);
    assert_eq!(s.evaluate(&market("x", "ten"), &w, &ctx), TradeAction::Hold);
    w.usdt_balance = d(5.0);
    assert_eq!(s.evaluate(&market("x", "10.06"), &w, &ctx), TradeAction::Hold);
}

#[test]
fn the_trend_is_followed_on_pullbacks() {
    let mut w = Wallet::new();
    let open = TradeAction::OpenLong { usdt_margin: d(100.0), leverage: 1 };
    assert_eq!(trend_action(&w, "X", d(11.0), d(10.0), d(44.0)), open);
    assert_eq!(trend_action(&w, "X", d(11.0), d(10.0), d(45.0)), TradeAction::Hold);
    assert_eq!(trend_action(&w, "X", d(10.0), d(10.0), d(44.0)), TradeAction::Hold);
    w.execute_open_long("X", d(10.0), d(100.0), 1, d(0.0));
    assert_eq!(trend_action(&w, "X", d(11.0), d(10.0), d(70.5)), TradeAction::ClosePosition);
    assert_eq!(trend_action(&w, "X", d(11.0), d(10.0), d(70.0)), TradeAction::Hold);
    assert_eq!(trade_action_to_contract_action(&open), ContractAction::Long);
    assert_eq!(trade_action_to_contract_action(&TradeAction::Hold), ContractAction::NoTrade);
    let (symbol, price) = trend_input(&market("btc", "2.5")).unwrap();
    assert_eq!((symbol.as_str(), wide(price)), ("BTC", 2.5));
    assert!(trend_input(&market("btc", "-2.5")).is_none());
}

#[test]
fn the_listener_carries_out_what_the_strategy_asks() {
    let mut l = Listener::new(Wallet::new());
    let mut s = PingPongStrategy;
    assert!(!l.on_market(&market("x", "10"), &mut s, d(0.0)));
    assert!(l.wallet.has_position("X"));
    assert_eq!(l.ticks, 1);
    l.on_market(&market("x", "inf"), &mut s, d(0.0));
    l.on_market(&market("x", "10"), &mut s, d(0.0));
    assert_eq!(l.ticks, 1);
    l.on_market(&market("x", "11"), &mut s, d(0.0));
    assert!(!l.wallet.has_position("X"));
    l.on_context(&context("x", 12.0), 5);
    assert_eq!(l.wallet.mark_prices.get("X").map(|m| wide(*m)), Some(12.0));
    l.ticks = 99;
    assert!(l.act("x", d(10.0), TradeAction::ClosePosition, d(0.0)));
    assert!(!l.act("x", d(10.0), TradeAction::Hold, d(0.0)));
    assert_eq!(l.ticks, 100);
}

#[test]
fn tradable_messages_have_a_symbol_and_a_positive_price() {
    let (symbol, price) = tradable(&market("abc", "1.5")).unwrap();
    assert_eq!((symbol.as_str(), wide(price)), ("ABC", 1.5));
    assert!(tradable(&market("abc", "0")).is_none());
    assert!(tradable(&market("abc", "inf")).is_none());
    let mut none = market("abc", "1");
    none.data = Json::Null;
    assert!(tradable(&none).is_none());
    assert_eq!(none.symbol(), None);
}

#[test]
fn simulator_messages_need_all_their_texts() {
    let full = br#"{"stream":"a","event_type":"trade","ts_ingest":"1","data":{"symbol":"q","price":"3"}}"#;
    let e = MarketEvent::read(full).unwrap();
    assert_eq!(e.symbol(), Some("Q".to_string()));
    assert_eq!(e.price_f64().map(wide), Some(3.0));
    assert!(MarketEvent::read(br#"{"stream":"a","event_type":"trade","data":{}}"#).is_none());
    assert!(MarketEvent::read(br#"{"stream":null,"event_type":"t","ts_ingest":"1","data":{}}"#).is_none());
}

#[test]
fn messages_come_as_lists_too() {
    let e = MarketEvent::read(br#"["a","trade","1",{"symbol":"q","price":"3"}]"#).unwrap();
    assert_eq!(e.stream, "a");
    assert_eq!(e.event_type, "trade");
    assert_eq!(e.ts_ingest, "1");
    assert_eq!(e.symbol(), Some("Q".to_string()));
    assert!(MarketEvent::read(br#"["a","trade","1"]"#).is_none());
    assert!(MarketEvent::read(br#"["a","trade","1",{},{}]"#).is_none());
    assert!(MarketEvent::read(br#"["a","trade",1,{}]"#).is_none());
}

#[test]
fn symbols_that_differ_in_case_are_one() {
    assert_eq!(norm_symbol("btcUsdt1"), "BTCUSDT1");
    assert_eq!(norm_symbol("BtcuSDT1"), norm_symbol("btcUsdt1"));
    assert_eq!(norm_symbol(&norm_symbol("btcUsdt1")), norm_symbol("btcUsdt1"));
}

#[test]
fn the_spot_wallet_averages_its_entries() {
    let mut w = spot::Wallet::new();
    w.execute_buy("X", d(10.0), d(100.0), d(0.0));
    let qty = (100.0f64 - 100.0 * 0.001) / 10.0;
    assert_eq!(wide(w.usdt_balance), 900.0);
    assert_eq!(wide(w.positions.get("X").unwrap().amount), qty);
    w.execute_buy("X", d(20.0), d(50.0), d(0.0));
    let more = (50.0f64 - 50.0 * 0.001) / 20.0;
    let avg = (qty * 10.0 + more * 20.0) / (qty + more);
    assert_eq!(w.position_entry_price("X").map(wide), Some(avg));
    let p = w.positions.get("X").unwrap();
    assert_eq!(wide(p.current_value), (qty + more) * 20.0);
    assert_eq!(wide(p.unrealized_pnl), (qty + more) * 20.0 - (qty + more) * avg);
    assert_eq!(wide(w.net_worth()), 850.0 + (qty + more) * 20.0);
    assert!(!w.has_position("x"));
}

#[test]
fn the_spot_wallet_sells_all() {
    let mut w = spot::Wallet::new();
    w.execute_buy("X", d(10.0), d(5000.0), d(0.0005));
    let qty = (1000.0f64 - 1000.0 * 0.001) / (10.0 * (1.0 + 0.0005));
    assert_eq!(wide(w.usdt_balance), 0.0);
    w.execute_buy("Y", d(10.0), d(5.0), d(0.0));
    assert!(!w.has_position("Y"));
    w.execute_sell("X", d(12.0), d(0.0001));
    let gross = qty * (12.0 * (1.0 - 0.0001));
    assert_eq!(wide(w.usdt_balance), 0.0 + (gross - gross * 0.001));
    assert_eq!(w.latest_prices.get("X").map(|x| wide(*x)), Some(12.0));
    w.update_mark("Z", d(3.0));
    assert_eq!(w.latest_prices.get("Z").map(|x| wide(*x)), Some(3.0));
}

#[test]
fn the_spot_strategy_ping_pongs() {
    let mut w = spot::Wallet::new();
    assert_eq!(spot::evaluate(&w, "X", d(10.0)), spot::Action::Buy(d(100.0)));
    w.execute_buy("X", d(10.0), d(100.0), d(0.0));
    assert_eq!(spot::evaluate(&w, "X", d(10.04)), spot::Action::Hold);
    assert_eq!(spot::evaluate(&w, "X", d(10.06)), spot::Action::Sell);
    w.usdt_balance = d(9.5);
    assert_eq!(spot::evaluate(&w, "X", d(10.06)), spot::Action::Hold);
}

/// Indicators that only count their steps.
struct Falling {
    steps: u32,
}

fn falling(ema: usize, rsi: usize) -> Option<Falling> {
    assert_eq!((ema, rsi), (50, 14));
    Some(Falling { steps: 0 })
}

fn fall(before: Falling, _price: Double) -> (Falling, (Double, Double)) {
    let steps = before.steps + 1;
    (Falling { steps }, (d(1.0), d(if steps == 2 { 40.0 } else { 80.0 })))
}

#[test]
fn the_trend_follower_keeps_indicators_for_each_symbol() {
    let mut s = TrendFollowStrategy::new(falling, fall);
    let mut l = Listener::new(Wallet::new());
    l.on_market(&market("x", "10"), &mut s, d(0.0));
    l.on_market(&market("y", "10"), &mut s, d(0.0));
    assert_eq!(l.ticks, 0);
    l.on_market(&market("x", "10"), &mut s, d(0.0));
    assert!(l.wallet.has_position("X") && !l.wallet.has_position("Y"));
    l.on_market(&market("x", "10"), &mut s, d(0.0));
    assert!(!l.wallet.has_position("X"));
    let mut none = TrendFollowStrategy::new(|_, _| None, fall);
    let ctx = symbol_context_from_wallet(&l.wallet, "X");
    assert_eq!(none.evaluate(&market("x", "10"), &l.wallet, &ctx), TradeAction::Hold);
}

#[test]
fn the_trend_follower_steps_its_indicators_once() {
    use_real_indicators(&[10.0, 11.0, 10.5, 10.4, 12.0, 11.9, 11.8, 11.7, 13.0, 12.0, 0.5]);
}

/// The strategy answers as the indicators over the same prices say, asked once for each price.
fn use_real_indicators(prices: &[f64]) {
    let fresh = |ema: usize, rsi: usize| {
        Some((
            ExponentialMovingAverage::new(ema).ok()?,
            RelativeStrengthIndex::new(rsi).ok()?,
        ))
    };
    let next = |(mut ema, mut rsi): (ExponentialMovingAverage, RelativeStrengthIndex), p| {
        let values = (d(ema.next(wide(p))), d(rsi.next(wide(p))));
        ((ema, rsi), values)
    };
    let mut s = TrendFollowStrategy::new(fresh, next);
    let mut l = Listener::new(Wallet::new());
    let mut ema = ExponentialMovingAverage::new(50).unwrap();
    let mut rsi = RelativeStrengthIndex::new(14).unwrap();
    for p in prices {
        let had = l.wallet.has_position("X");
        let (e, r) = (ema.next(*p), rsi.next(*p));
        l.on_market(&market("x", &p.to_string()), &mut s, d(0.0));
        let has = if had { !(r > 70.0) } else { *p > e && r < 45.0 };
        assert_eq!(l.wallet.has_position("X"), has);
        // A message without a price asks nothing of the strategy.
        l.on_market(&market("x", "none"), &mut s, d(0.0));
    }
}
