//! The default listener: the unconditional fallback event, reported on
//! every tick.

use vstd::prelude::*;
use crate::event::Event;

verus! {

/// The listener that reports the default event on every tick.
#[derive(Debug)]
pub struct DefaultListener;

impl DefaultListener {
    /// Adds the default event, which is always active.
    pub fn get(&self, v: &mut Vec<Event>)
        ensures
            final(v)@ == old(v)@.push(Event::Default),
    {
        v.push(Event::Default);
    }
}

} // verus!
