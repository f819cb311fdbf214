//! Recorded events, and where they come from.

use crate::common::{BboTick, TradeTick};
use crate::rank::{ranking, ranking_of};
use vstd::prelude::*;

verus! {

/// A recorded event.
#[derive(Debug)]
pub enum ReplayEvent {
    Bbo(BboTick),
    Trade(TradeTick),
}

impl Clone for ReplayEvent {
    fn clone(&self) -> (r: Self)
        ensures
            r == *self,
    {
        match self {
            ReplayEvent::Bbo(t) => ReplayEvent::Bbo(t.clone()),
            ReplayEvent::Trade(t) => ReplayEvent::Trade(t.clone()),
        }
    }
}

impl ReplayEvent {
    pub open spec fn time(self) -> i64 {
        match self {
            ReplayEvent::Bbo(t) => t.ts_exchange,
            ReplayEvent::Trade(t) => t.ts_exchange,
        }
    }

    /// The identifier that orders events of one moment.
    pub open spec fn id(self) -> u64 {
        match self {
            ReplayEvent::Bbo(t) => t.update_id,
            ReplayEvent::Trade(t) => t.exchange_id,
        }
    }

    pub open spec fn name(self) -> Seq<char> {
        match self {
            ReplayEvent::Bbo(t) => t.symbol@,
            ReplayEvent::Trade(t) => t.symbol@,
        }
    }

    pub fn ts_exchange(&self) -> (r: i64)
        ensures
            r == self.time(),
    {
        match self {
            ReplayEvent::Bbo(t) => t.ts_exchange,
            ReplayEvent::Trade(t) => t.ts_exchange,
        }
    }

    pub fn symbol(&self) -> (r: &str)
        ensures
            r@ == self.name(),
    {
        match self {
            ReplayEvent::Bbo(t) => t.symbol.as_str(),
            ReplayEvent::Trade(t) => t.symbol.as_str(),
        }
    }

    /// Orders events of one moment: the update id of a quote, the exchange id of a trade.
    pub fn order_key(&self) -> (r: u64)
        ensures
            r == self.id(),
    {
        match self {
            ReplayEvent::Bbo(t) => t.update_id,
            ReplayEvent::Trade(t) => t.exchange_id,
        }
    }
}

/// Events are equal when they stand at the same place of the order.
impl PartialEq for ReplayEvent {
    fn eq(&self, other: &Self) -> (r: bool) {
        self.ts_exchange() == other.ts_exchange() && self.order_key() == other.order_key()
    }
}

impl vstd::std_specs::cmp::PartialEqSpecImpl for ReplayEvent {
    open spec fn obeys_eq_spec() -> bool {
        true
    }

    open spec fn eq_spec(&self, other: &Self) -> bool {
        self.time() == other.time() && self.id() == other.id()
    }
}

impl Eq for ReplayEvent {

}

/// The moment and the identifier of each event.
pub open spec fn event_keys(events: Seq<ReplayEvent>) -> Seq<(i64, u64)> {
    events.map_values(|e: ReplayEvent| (e.time(), e.id()))
}

/// The events by moment, then by identifier; those equal in both keep their order.
pub open spec fn sorted_events(events: Seq<ReplayEvent>) -> Seq<ReplayEvent> {
    let order = ranking_of(event_keys(events));
    Seq::new(events.len(), |a: int| events[order[a]])
}

/// Sorts events by moment, then by identifier.
pub fn sort_events(events: &Vec<ReplayEvent>) -> (r: Vec<ReplayEvent>)
    ensures
        r@ == sorted_events(events@),
        in_order(r@),
{
    let mut keys: Vec<(i64, u64)> = Vec::new();
    let mut i: usize = 0;
    while i < events.len()
        invariant
            i <= events@.len(),
            keys@ == event_keys(events@).take(i as int),
        decreases events@.len() - i,
    {
        keys.push((events[i].ts_exchange(), events[i].order_key()));
        i = i + 1;
        proof {
            assert(keys@ =~= event_keys(events@).take(i as int));
        }
    }
    proof {
        assert(keys@ =~= event_keys(events@));
    }
    let order = ranking(&keys);
    let ghost ranks = ranking_of(keys@);
    let mut r: Vec<ReplayEvent> = Vec::new();
    let mut a: usize = 0;
    while a < order.len()
        invariant
            a <= order@.len(),
            order@.len() == events@.len(),
            ranks == crate::rank::places(order@),
            crate::rank::is_ranking(event_keys(events@), ranks),
            r@.len() == a,
            forall|b: int| 0 <= b < a ==> #[trigger] r@[b] == events@[ranks[b]],
        decreases order@.len() - a,
    {
        proof {
            assert(ranks[a as int] == order@[a as int]);
        }
        r.push(events[order[a]].clone());
        a = a + 1;
    }
    proof {
        assert(r@ =~= sorted_events(events@));
        assert forall|x: int, y: int| 0 <= x < y < r@.len() implies #[trigger] r@[x].time()
            <= #[trigger] r@[y].time() by {
            assert(crate::rank::precedes(event_keys(events@), ranks[x], ranks[y]));
        }
    }
    r
}

/// The moments never decrease.
pub open spec fn in_order(events: Seq<ReplayEvent>) -> bool {
    forall|x: int, y: int|
        0 <= x < y < events.len() ==> #[trigger] events[x].time() <= #[trigger] events[y].time()
}

} // verus!
