use quantum_sentry::common::{BboTick, OrderCommand, OrderSide, OrderType};
use quantum_sentry::num::Double;
use quantum_sentry::sim_broker::paper_broker::{determine_action, side_str, OrderEffect};
use quantum_sentry::sim_broker::{
    PaperBroker, PaperBrokerConfig, PaperBrokerVars, PositionSide, SymbolPortfolio,
};

fn d(x: f64) -> Double {
    Double::from_bits(x.to_bits())
}

fn wide(x: Double) -> f64 {
    f64::from_bits(x.to_bits())
}

fn quote(ts: i64, symbol: &str, bid: f64, ask: f64) -> BboTick {
    BboTick {
        ts_exchange: ts,
        ts_ingest: ts,
        update_id: 1,
        symbol: symbol.to_string(),
        bid_price: d(bid),
        bid_qty: d(1.0),
        ask_price: d(ask),
        ask_qty: d(1.0),
    }
}

fn order(symbol: &str, side: OrderSide, qty: f64) -> OrderCommand {
    OrderCommand {
        client_order_id: "id".to_string(),
        symbol: symbol.to_string(),
        side,
        order_type: OrderType::Market,
        qty: d(qty),
        price: None,
        reduce_only: None,
        leverage: None,
        sl: None,
        tp: None,
    }
}

fn broker() -> PaperBroker {
    let mut b = PaperBroker::new(PaperBrokerConfig::default());
    b.update_bbo(&quote(10, "btc", 9.9, 10.1));
    b
}

#[test]
fn orders_without_a_quote_are_rejected() {
    let mut b = PaperBroker::new(PaperBrokerConfig::default());
    let f = b.execute_order(&order("btc", OrderSide::Buy, 1.0), 10);
    assert_eq!((f.action.as_str(), f.reason_code.as_str()), ("REJECTED", "no_market_price"));
    assert_eq!(f.symbol, "BTC");
    assert_eq!(wide(f.qty), 0.0);
    let mut early = broker();
    let g = early.execute_order(&order("btc", OrderSide::Buy, 1.0), 9);
    assert_eq!(g.reason_code, "no_market_price");
}

#[test]
fn only_market_orders_are_supported() {
    let mut b = broker();
    let mut o = order("btc", OrderSide::Buy, 1.0);
    o.order_type = OrderType::Limit;
    assert_eq!(b.execute_order(&o, 10).reason_code, "unsupported_order_type");
}

#[test]
fn a_long_round_trip_has_exact_numbers() {
    let mut b = broker();
    let slip = 2.0f64 / 10_000.0;
    let fee = 7.5f64 / 10_000.0;
    let f = b.execute_order(&order("btc", OrderSide::Buy, 5.0), 11);
    let price = 10.1 * (1.0 + slip);
    let notional = price * 5.0;
    assert_eq!((f.action.as_str(), f.reason_code.as_str(), f.symbol.as_str()), ("OPEN_LONG", "", "btc"));
    assert_eq!(wide(f.fill_price), price);
    assert_eq!(wide(f.notional), notional);
    assert_eq!(wide(f.fee), notional * fee);
    assert_eq!(f32::from_bits(f.slippage_bps.to_bits()), 2.0);
    let cash = 100.0 - (notional + notional * fee);
    let a = b.account_snapshot("BTC", 11).unwrap();
    let mark = (9.9f64 + 10.1) / 2.0;
    assert_eq!(a.position_side, "LONG");
    assert_eq!(wide(a.cash_usdt), cash);
    assert_eq!(wide(a.unrealized_pnl), (mark - price) * 5.0);
    assert_eq!(wide(a.equity_usdt), cash + (mark - price) * 5.0);
    assert_eq!(b.active_symbols(), vec!["BTC"]);
    b.update_bbo(&quote(12, "BTC", 11.9, 12.1));
    let g = b.execute_order(&order("btc", OrderSide::Sell, 9.0), 12);
    let exit = 11.9 * (1.0 - slip);
    let back = exit * 5.0;
    assert_eq!(g.action, "CLOSE_LONG");
    assert_eq!(wide(g.qty), 5.0);
    let z = b.account_snapshot("btc", 12).unwrap();
    assert_eq!(z.position_side, "FLAT");
    assert_eq!(wide(z.cash_usdt), cash + (back - back * fee));
    assert_eq!(wide(z.realized_pnl), (exit - price) * 5.0 - back * fee);
    assert_eq!((z.trades_total, z.wins_total, z.losses_total), (1, 1, 0));
    assert_eq!(wide(z.fees_paid), notional * fee + back * fee);
    assert!(b.active_symbols().is_empty());
}

#[test]
fn a_losing_short_counts_as_a_loss() {
    let mut b = broker();
    let slip = 2.0f64 / 10_000.0;
    let fee = 7.5f64 / 10_000.0;
    let f = b.execute_order(&order("BTC", OrderSide::Sell, 2.0), 10);
    let price = 9.9 * (1.0 - slip);
    assert_eq!(f.action, "OPEN_SHORT");
    assert_eq!(wide(f.fill_price), price);
    b.update_bbo(&quote(20, "BTC", 10.9, 11.1));
    let g = b.execute_order(&order("BTC", OrderSide::Buy, 1.5), 20);
    let exit = 11.1 * (1.0 + slip);
    assert_eq!(g.action, "CLOSE_SHORT");
    assert_eq!(wide(g.qty), 1.5);
    let a = b.account_snapshot("BTC", 20).unwrap();
    assert_eq!(wide(a.realized_pnl), (price - exit) * 1.5 - exit * 1.5 * fee);
    assert_eq!((a.trades_total, a.wins_total, a.losses_total), (1, 0, 1));
}

#[test]
fn orders_beyond_the_limits_are_rejected() {
    let mut b = broker();
    assert_eq!(b.execute_order(&order("BTC", OrderSide::Buy, 10.0), 10).reason_code, "notional_cap");
    assert_eq!(b.execute_order(&order("BTC", OrderSide::Sell, 11.0), 10).reason_code, "notional_cap");
    let mut poor = PaperBroker::new(PaperBrokerConfig {
        initial_cash_usdt: d(5.0),
        ..PaperBrokerConfig::default()
    });
    poor.update_bbo(&quote(10, "BTC", 9.9, 10.1));
    assert_eq!(poor.execute_order(&order("BTC", OrderSide::Buy, 1.0), 10).reason_code, "insufficient_cash");
    assert_eq!(poor.execute_order(&order("BTC", OrderSide::Sell, 1.0), 10).reason_code, "insufficient_cash");
    let mut longs = PaperBroker::new(PaperBrokerConfig {
        allow_short: false,
        ..PaperBrokerConfig::default()
    });
    longs.update_bbo(&quote(10, "BTC", 9.9, 10.1));
    assert_eq!(longs.execute_order(&order("BTC", OrderSide::Sell, 1.0), 10).reason_code, "short_disabled");
}

#[test]
fn a_position_takes_no_second_order_on_its_side() {
    let mut b = broker();
    assert_eq!(b.execute_order(&order("BTC", OrderSide::Buy, 1.0), 10).action, "OPEN_LONG");
    let f = b.execute_order(&order("BTC", OrderSide::Buy, 1.0), 10);
    assert_eq!((f.action.as_str(), f.reason_code.as_str()), ("REJECTED", "position_conflict"));
    assert_eq!(
        determine_action(OrderSide::Sell, PositionSide::Short, true),
        OrderEffect::PositionConflict
    );
    assert_eq!(
        determine_action(OrderSide::Sell, PositionSide::Flat, false),
        OrderEffect::ShortDisabled
    );
}

#[test]
fn older_quotes_do_not_replace_newer_ones() {
    let mut b = broker();
    b.update_bbo(&quote(9, "BTC", 1.0, 2.0));
    b.execute_order(&order("BTC", OrderSide::Buy, 1.0), 10);
    assert_eq!(wide(b.account_snapshot("BTC", 10).unwrap().mark_price), (9.9 + 10.1) / 2.0);
    assert!(b.account_snapshot("ETH", 10).is_none());
    assert!(b.account_snapshot("BTC", 9).is_none());
    let mut past = PaperBroker::new(PaperBrokerConfig::default());
    past.update_bbo(&quote(-5, "BTC", 1.0, 2.0));
    let f = past.execute_order(&order("BTC", OrderSide::Buy, 1.0), 0);
    assert_eq!((f.action.as_str(), wide(f.fill_price)), ("OPEN_LONG", 0.0));
}

#[test]
fn active_symbols_are_in_alphabetical_order() {
    let mut b = broker();
    b.update_bbo(&quote(10, "abc", 1.0, 1.1));
    b.execute_order(&order("BTC", OrderSide::Buy, 1.0), 10);
    b.execute_order(&order("abc", OrderSide::Sell, 1.0), 10);
    assert_eq!(b.active_symbols(), vec!["ABC", "BTC"]);
}

#[test]
fn broker_settings_come_from_variables() {
    let unset = PaperBrokerVars {
        initial_cash_usdt: None,
        fee_bps: None,
        slippage_bps: None,
        max_position_notional_usdt: None,
        allow_short: None,
    };
    assert_eq!(PaperBrokerConfig::from_env(&unset), PaperBrokerConfig::default());
    let c = PaperBrokerConfig::from_env(&PaperBrokerVars {
        initial_cash_usdt: Some("2.5e2".to_string()),
        fee_bps: Some("x".to_string()),
        allow_short: Some("false".to_string()),
        ..unset
    });
    assert_eq!(wide(c.initial_cash_usdt), 250.0);
    assert_eq!(wide(c.fee_bps), 7.5);
    assert!(!c.allow_short);
}

#[test]
fn the_win_rate_is_a_share_of_the_trades() {
    let mut p = SymbolPortfolio::new("X".to_string());
    assert_eq!(wide(p.win_rate()), 0.0);
    p.trades_total = 3;
    p.wins_total = 1;
    assert_eq!(wide(p.win_rate()), 1.0 / 3.0);
    assert_eq!(side_str(PositionSide::Flat), "FLAT");
    assert_eq!(side_str(PositionSide::Short), "SHORT");
}

#[test]
fn a_position_is_opened_and_closed() {
    let mut b = broker();
    let cash = wide(b.account_snapshot("btc", 10).map_or(d(100.0), |a| a.cash_usdt));
    let f1 = b.execute_order(&order("BTC", OrderSide::Buy, 2.0), 10);
    b.update_bbo(&quote(20, "BTC", 10.9, 11.1));
    let f2 = b.execute_order(&order("btc", OrderSide::Sell, 3.0), 20);
    assert_eq!((f1.action.as_str(), f2.action.as_str()), ("OPEN_LONG", "CLOSE_LONG"));
    assert_eq!(wide(f2.qty), wide(f1.qty));
    let gain = (wide(f2.fill_price) - wide(f1.fill_price)) * wide(f1.qty) - wide(f2.fee);
    let a = b.account_snapshot("BTC", 20).unwrap();
    assert_eq!(wide(a.realized_pnl), 0.0 + gain);
    assert_eq!(
        wide(a.cash_usdt),
        (cash - (wide(f1.notional) + wide(f1.fee))) + (wide(f2.notional) - wide(f2.fee))
    );
    assert_eq!((a.trades_total, a.wins_total, a.losses_total), (1, 1, 0));
    assert_eq!(a.position_side, "FLAT");
    assert_eq!(wide(a.position_qty), 0.0);
}
