//! What the simulation does with each message.

use super::model::{event_price, event_symbol, MarketContextEvent, MarketEvent};
use super::strategy::{
    is_context, symbol_context_from_wallet, Strategy, SymbolContext, TradeAction,
};
use super::wallet::{
    funded, is_closed, opened, revalued, with_context, PositionSide, Wallet, WalletModel,
};
use crate::num::model::{finite_positive, Num};
use crate::num::Double;
use crate::text::words::uppercase;
use vstd::prelude::*;

verus! {

/// The wallet status is due after every this many trades.
pub const STATUS_EVERY: u64 = 100;

/// The symbol and the price of a message that can be traded on: the price is finite and
/// positive.
pub fn tradable(event: &MarketEvent) -> (r: Option<(String, Double)>)
    ensures
        match r {
            Some((s, p)) => event_symbol(*event) == Some(s@) && event_price(*event) == Some(p@)
                && finite_positive(p@),
            None => event_symbol(*event) is None || !(event_price(*event) matches Some(p)
                && finite_positive(p)),
        },
{
    let symbol = event.symbol()?;
    let price = event.price_f64()?;
    if price.is_finite_positive() {
        Some((symbol, price))
    } else {
        None
    }
}

/// The wallet after an action, its positions valued at the mark prices; `Hold` does nothing.
pub open spec fn is_acted(
    w: WalletModel,
    symbol: Seq<char>,
    price: Num,
    action: TradeAction,
    slippage: Num,
    after: WalletModel,
) -> bool {
    match action {
        TradeAction::OpenLong { usdt_margin, leverage } => after == revalued(
            opened(w, symbol, PositionSide::Long, price, usdt_margin@, leverage, slippage),
        ),
        TradeAction::OpenShort { usdt_margin, leverage } => after == revalued(
            opened(w, symbol, PositionSide::Short, price, usdt_margin@, leverage, slippage),
        ),
        TradeAction::ClosePosition => exists|closed: WalletModel| #[trigger]
            is_closed(w, symbol, price, slippage, closed) && after == revalued(closed),
        TradeAction::Hold => after == w,
    }
}

/// The simulation: a wallet and the number of actions taken.
pub struct Listener {
    pub wallet: Wallet,
    pub ticks: u64,
}

/// The simulation after an action, and whether the status of the wallet is due: an action counts
/// unless it is `Hold`, and the status is due with every hundredth one.
pub open spec fn is_step(
    before: Listener,
    symbol: Seq<char>,
    price: Num,
    action: TradeAction,
    slippage: Num,
    after: Listener,
    due: bool,
) -> bool {
    &&& is_acted(before.wallet@, symbol, price, action, slippage, after.wallet@)
    &&& after.ticks == if action == TradeAction::Hold {
        before.ticks
    } else if before.ticks == u64::MAX {
        0
    } else {
        (before.ticks + 1) as u64
    }
    &&& due == (action != TradeAction::Hold && after.ticks % STATUS_EVERY == 0)
}

/// The strategy was asked once, and the simulation took the step that it asked for.
pub open spec fn is_asked<S: Strategy>(
    strategy: S,
    strategy_after: S,
    event: MarketEvent,
    before: Listener,
    symbol: Seq<char>,
    price: Num,
    slippage: Num,
    after: Listener,
    due: bool,
) -> bool {
    exists|ctx: SymbolContext, action: TradeAction| #[trigger]
        strategy.allows(event, before.wallet@, ctx, action, &strategy_after) && is_context(
            before.wallet,
            symbol,
            ctx,
        ) && is_step(before, symbol, price, action, slippage, after, due)
}

impl Listener {
    pub fn new(wallet: Wallet) -> (r: Self)
        ensures
            r.wallet == wallet,
            r.ticks == 0,
    {
        Listener { wallet, ticks: 0 }
    }

    /// Carries out an action at a price, with a slippage drawn by the caller; whether the status
    /// of the wallet is due.
    pub fn act(
        &mut self,
        symbol: &str,
        price: Double,
        action: TradeAction,
        drawn: Double,
    ) -> (due: bool)
        ensures
            is_step(*old(self), symbol@, price@, action, drawn@, *final(self), due),
    {
        match action {
            TradeAction::OpenLong { usdt_margin, leverage } => {
                self.wallet.execute_open_long(symbol, price, usdt_margin, leverage, drawn);
            },
            TradeAction::OpenShort { usdt_margin, leverage } => {
                self.wallet.execute_open_short(symbol, price, usdt_margin, leverage, drawn);
            },
            TradeAction::ClosePosition => {
                self.wallet.execute_close(symbol, price, drawn);
            },
            TradeAction::Hold => {
                return false;
            },
        }
        self.wallet.update_pnl();
        self.ticks = self.ticks.wrapping_add(1);
        self.ticks % STATUS_EVERY == 0
    }

    /// Takes in a market message: asks the strategy and carries out its action; whether the
    /// status of the wallet is due.
    pub fn on_market<S: Strategy>(
        &mut self,
        event: &MarketEvent,
        strategy: &mut S,
        drawn: Double,
    ) -> (due: bool)
        ensures
            match (event_symbol(*event), event_price(*event)) {
                (Some(symbol), Some(price)) => if finite_positive(price) {
                    is_asked(
                        *old(strategy),
                        *final(strategy),
                        *event,
                        *old(self),
                        symbol,
                        price,
                        drawn@,
                        *final(self),
                        due,
                    )
                } else {
                    !due && *final(self) == *old(self) && *final(strategy) == *old(strategy)
                },
                _ => !due && *final(self) == *old(self) && *final(strategy) == *old(strategy),
            },
    {
        match tradable(event) {
            Some((symbol, price)) => {
                let ctx = symbol_context_from_wallet(&self.wallet, symbol.as_str());
                let action = strategy.evaluate(event, &self.wallet, &ctx);
                let ghost before = *self;
                let due = self.act(symbol.as_str(), price, action, drawn);
                proof {
                    let s0 = *old(strategy);
                    let s1 = *strategy;
                    assert(s0.allows(*event, before.wallet@, ctx, action, &s1));
                    assert(is_context(before.wallet, symbol@, ctx));
                    assert(is_step(before, symbol@, price@, action, drawn@, *self, due));
                    assert(is_asked(s0, s1, *event, before, symbol@, price@, drawn@, *self, due));
                }
                due
            },
            None => false,
        }
    }

    /// Takes in a context message: mark price, valuation, and funding where it is due.
    pub fn on_context(&mut self, evt: &MarketContextEvent, now_ms: i64)
        ensures
            final(self).wallet@ == funded(revalued(with_context(old(self).wallet@, *evt)), now_ms),
            final(self).ticks == old(self).ticks,
    {
        self.wallet.update_context(evt);
        self.wallet.update_pnl();
        self.wallet.apply_funding_if_due(now_ms);
    }
}

/// A step does what was asked: a long is opened as a long and a short as a short, at the price of
/// the message, a close closes, and all positions are then valued; holding does nothing. Actions
/// are counted, and the status is due with every hundredth.
pub proof fn law_steps_do_what_was_asked(
    before: Listener,
    symbol: Seq<char>,
    price: Num,
    action: TradeAction,
    slippage: Num,
    after: Listener,
    due: bool,
)
    requires
        is_step(before, symbol, price, action, slippage, after, due),
    ensures
        action matches TradeAction::OpenLong { usdt_margin, leverage } ==> after.wallet@
            == revalued(
            opened(
                before.wallet@,
                symbol,
                PositionSide::Long,
                price,
                usdt_margin@,
                leverage,
                slippage,
            ),
        ),
        action matches TradeAction::OpenShort { usdt_margin, leverage } ==> after.wallet@
            == revalued(
            opened(
                before.wallet@,
                symbol,
                PositionSide::Short,
                price,
                usdt_margin@,
                leverage,
                slippage,
            ),
        ),
        action is ClosePosition ==> !after.wallet@.positions.contains_key(uppercase(symbol)) && (
        exists|closed: WalletModel| #[trigger]
            is_closed(before.wallet@, symbol, price, slippage, closed) && after.wallet@ == revalued(
                closed,
            )),
        action is Hold ==> after.wallet@ == before.wallet@,
        action is Hold ==> !due && after.ticks == before.ticks,
        !(action is Hold) && before.ticks < u64::MAX ==> after.ticks == before.ticks + 1 && due == (
        (before.ticks + 1) % 100 == 0),
{
}

} // verus!
