//! Recorded events out of a file of JSON lines.

use super::source::{sort_events, sorted_events, ReplayEvent};
use crate::common::BboTick;
use vstd::prelude::*;

verus! {

/// The file that the events are read from.
#[derive(Clone, Debug)]
pub struct JsonlReplaySource {
    pub path: String,
}

/// What a line holds.
#[derive(Debug)]
pub enum SourceLine {
    /// Nothing but white space.
    Blank,
    Event(ReplayEvent),
    /// A quote, plain or with a sequence number.
    Tick(BboTick),
    /// None of these.
    Broken,
}

impl SourceLine {
    pub open spec fn event(self) -> Seq<ReplayEvent> {
        match self {
            SourceLine::Event(e) => seq![e],
            SourceLine::Tick(t) => seq![ReplayEvent::Bbo(t)],
            _ => Seq::empty(),
        }
    }
}

/// The events on the lines, in their order.
pub open spec fn events_on(lines: Seq<SourceLine>) -> Seq<ReplayEvent>
    decreases lines.len(),
{
    if lines.len() == 0 {
        Seq::empty()
    } else {
        events_on(lines.drop_last()) + lines.last().event()
    }
}

pub open spec fn no_broken(lines: Seq<SourceLine>) -> bool {
    forall|i: int| 0 <= i < lines.len() ==> !(#[trigger] lines[i] is Broken)
}

impl JsonlReplaySource {
    pub fn new(path: &str) -> (r: Self)
        ensures
            r.path@ == path@,
    {
        JsonlReplaySource { path: path.to_string() }
    }

    /// The events on the lines, sorted; or the first line that holds none.
    pub fn events(lines: &Vec<SourceLine>) -> (r: Result<Vec<ReplayEvent>, usize>)
        ensures
            match r {
                Ok(events) => no_broken(lines@) && events@ == sorted_events(events_on(lines@)),
                Err(i) => i < lines@.len() && lines@[i as int] is Broken && no_broken(
                    lines@.take(i as int),
                ),
            },
    {
        let mut events: Vec<ReplayEvent> = Vec::new();
        let mut i: usize = 0;
        while i < lines.len()
            invariant
                i <= lines@.len(),
                no_broken(lines@.take(i as int)),
                events@ == events_on(lines@.take(i as int)),
            decreases lines@.len() - i,
        {
            let ghost before = events@;
            let ghost upto = lines@.take(i + 1);
            proof {
                assert(upto.drop_last() =~= lines@.take(i as int));
                assert(upto.last() == lines@[i as int]);
            }
            match &lines[i] {
                SourceLine::Blank => {
                    proof {
                        assert(events@ =~= before + Seq::<ReplayEvent>::empty());
                    }
                },
                SourceLine::Event(e) => {
                    events.push(e.clone());
                    proof {
                        assert(events@ =~= before + upto.last().event());
                    }
                },
                SourceLine::Tick(t) => {
                    events.push(ReplayEvent::Bbo(t.clone()));
                    proof {
                        assert(events@ =~= before + upto.last().event());
                    }
                },
                SourceLine::Broken => return Err(i),
            }
            i = i + 1;
        }
        proof {
            assert(lines@.take(lines@.len() as int) =~= lines@);
        }
        Ok(sort_events(&events))
    }
}

} // verus!
