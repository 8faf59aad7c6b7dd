//! The state listener: subscriptions to named machines being in named
//! states, raising a membership event for each that currently holds.

use vstd::prelude::*;
use crate::event::Event;
use crate::command::state::{StateSingleton, spec_find_machine};

verus! {

/// The state listener: each subscription names a machine and the state id
/// whose membership it watches.
#[derive(Debug)]
pub struct StateListener {
    pub subscriptions: Vec<(String, i32)>,
}

/// The membership events one tick raises: one per subscription whose
/// machine currently stands in the subscribed state, in subscription
/// order.  An unknown machine reads as the impossible state id -1.
pub open spec fn spec_state_events(subs: Seq<(String, i32)>, states: StateSingleton) -> Seq<Event>
    decreases subs.len(),
{
    if subs.len() == 0 {
        Seq::<Event>::empty()
    } else {
        spec_state_events(subs.drop_last(), states) + if (match spec_find_machine(
            states.machines@,
            subs.last().0@,
        ) {
            Some(j) => states.machines@[j].current as int,
            None => -1int,
        }) == subs.last().1 {
            seq![Event::StateIs(subs.last().0, subs.last().1)]
        } else {
            Seq::<Event>::empty()
        }
    }
}

impl StateListener {
    /// A listener with no subscriptions yet.
    pub fn new() -> (r: Self)
        ensures
            r.subscriptions@.len() == 0,
    {
        Self { subscriptions: Vec::new() }
    }

    /// Subscribes to a machine being in a state.
    pub fn subscribe(&mut self, machine: String, sid: i32)
        ensures
            final(self).subscriptions@ == old(self).subscriptions@.push((machine, sid)),
    {
        self.subscriptions.push((machine, sid));
    }

    /// Raises a membership event for every subscription whose machine is
    /// currently in the subscribed state.
    pub fn get(&self, states: &StateSingleton, v: &mut Vec<Event>)
        ensures
            final(v)@ == old(v)@ + spec_state_events(self.subscriptions@, *states),
    {
        let n = self.subscriptions.len();
        let ghost v0 = v@;
        let ghost subs = self.subscriptions@;
        proof {
            assert(subs.take(0int) =~= Seq::<(String, i32)>::empty());
            assert(v@ =~= v0 + spec_state_events(subs.take(0int), *states));
        }
        let mut i: usize = 0;
        while i < n
            invariant
                n == self.subscriptions@.len(),
                subs == self.subscriptions@,
                i <= n,
                v@ == v0 + spec_state_events(subs.take(i as int), *states),
            decreases n - i,
        {
            proof {
                assert(subs.take(i + 1).drop_last() =~= subs.take(i as int));
                assert(subs.take(i + 1).last() == subs[i as int]);
            }
            let (machine, sid) = (&self.subscriptions[i].0, self.subscriptions[i].1);
            if states.get(machine) == sid {
                v.push(Event::StateIs(machine.clone(), sid));
            }
            proof {
                assert(v@ =~= v0 + spec_state_events(subs.take(i + 1), *states));
            }
            i = i + 1;
        }
        proof {
            assert(subs.take(n as int) =~= subs);
        }
    }
}

} // verus!
