//! Named finite-state machines: deterministic transition tables advanced or
//! set by commands, and queried by event listeners.

use vstd::prelude::*;
use crate::event::string_eq;

verus! {

/// A command that sets a named machine to a named state.
#[derive(Debug)]
pub struct SetStateCommand(pub String, pub String);

/// A command that advances a named machine by a number of steps.
#[derive(Debug)]
pub struct NextStateCommand(pub String, pub i32);

/// One named machine: its state names, in order, and the current state.
#[derive(Debug)]
pub struct StateMachine {
    pub name: String,
    pub states: Vec<String>,
    pub current: i32,
}

/// The collection of all named machines.
#[derive(Debug)]
pub struct StateSingleton {
    pub machines: Vec<StateMachine>,
}

/// The first machine with a name, if any.
pub open spec fn spec_find_machine(ms: Seq<StateMachine>, name: Seq<char>) -> Option<int>
    decreases ms.len(),
{
    if ms.len() == 0 {
        None
    } else if ms[0].name@ == name {
        Some(0)
    } else {
        match spec_find_machine(ms.drop_first(), name) {
            Some(j) => Some(j + 1),
            None => None,
        }
    }
}

/// The first state with a name, if any.
pub open spec fn spec_find_state(states: Seq<String>, name: Seq<char>) -> Option<int>
    decreases states.len(),
{
    if states.len() == 0 {
        None
    } else if states[0]@ == name {
        Some(0)
    } else {
        match spec_find_state(states.drop_first(), name) {
            Some(j) => Some(j + 1),
            None => None,
        }
    }
}

/// Rust's truncated remainder on integers: the sign follows the dividend.
pub open spec fn spec_trunc_rem(a: int, b: int) -> int
    recommends
        b > 0,
{
    if a >= 0 {
        a % b
    } else {
        -((-a) % b)
    }
}

/// The current state after advancing a machine by `traverse` steps: the sum
/// wraps as a 32-bit integer and is reduced modulo the number of states.  A
/// machine with no states, or with more states than an `i32` holds, is left
/// as it is.
pub open spec fn spec_next_current(m: StateMachine, traverse: i32) -> i32 {
    if m.states@.len() == 0 || m.states@.len() > i32::MAX {
        m.current
    } else {
        spec_trunc_rem(
            (m.current as int + traverse as int) % 0x1_0000_0000int - (if (m.current as int
                + traverse as int) % 0x1_0000_0000int >= 0x8000_0000int {
                0x1_0000_0000int
            } else {
                0int
            }),
            m.states@.len() as int,
        ) as i32
    }
}

impl StateMachine {
    /// A machine from its ordered state names, starting in the first state.
    pub fn from(name: String, states: Vec<String>) -> (m: Self)
        ensures
            m.name == name,
            m.states == states,
            m.current == 0,
    {
        Self { name, states, current: 0 }
    }
}

impl StateSingleton {
    /// An empty collection.
    pub fn new() -> (r: Self)
        ensures
            r.machines@.len() == 0,
    {
        Self { machines: Vec::new() }
    }

    /// Builds the machines from their configured state-name lists; every
    /// machine starts in its first state.
    pub fn initialize(&mut self, config: Vec<(String, Vec<String>)>)
        ensures
            final(self).machines@.len() == config@.len(),
            forall|i: int|
                0 <= i < config@.len() ==> {
                    &&& (#[trigger] final(self).machines@[i]).name == config@[i].0
                    &&& final(self).machines@[i].states == config@[i].1
                    &&& final(self).machines@[i].current == 0
                },
    {
        let mut machines: Vec<StateMachine> = Vec::new();
        let mut config = config;
        let n = config.len();
        let ghost cfg0 = config@;
        let mut i: usize = 0;
        while i < n
            invariant
                n == cfg0.len(),
                i <= n,
                config@ =~= cfg0.skip(i as int),
                machines@.len() == i,
                forall|k: int|
                    0 <= k < i ==> {
                        &&& (#[trigger] machines@[k]).name == cfg0[k].0
                        &&& machines@[k].states == cfg0[k].1
                        &&& machines@[k].current == 0
                    },
            decreases n - i,
        {
            let (name, states) = config.remove(0);
            machines.push(StateMachine::from(name, states));
            i = i + 1;
        }
        self.machines = machines;
    }

    /// Looks up a machine by name.
    fn find_machine(&self, machine: &String) -> (r: Option<usize>)
        ensures
            match r {
                Some(j) => j < self.machines@.len() && Some(j as int) == spec_find_machine(
                    self.machines@,
                    machine@,
                ),
                None => spec_find_machine(self.machines@, machine@) is None,
            },
    {
        let n = self.machines.len();
        let mut i: usize = 0;
        proof {
            assert(self.machines@.skip(0) =~= self.machines@);
        }
        while i < n
            invariant
                n == self.machines@.len(),
                i <= n,
                spec_find_machine(self.machines@, machine@) == match spec_find_machine(
                    self.machines@.skip(i as int),
                    machine@,
                ) {
                    Some(j) => Some(j + i),
                    None => None::<int>,
                },
            decreases n - i,
        {
            proof {
                assert(self.machines@.skip(i as int)[0] == self.machines@[i as int]);
                assert(self.machines@.skip(i as int).drop_first() =~= self.machines@.skip(i + 1));
            }
            let m = &self.machines[i];
            if string_eq(&m.name, machine) {
                return Some(i);
            }
            i = i + 1;
        }
        proof {
            assert(self.machines@.skip(n as int) =~= Seq::<StateMachine>::empty());
        }
        None
    }

    /// Looks up a state's id in a list of state names.
    fn find_state(states: &Vec<String>, state: &String) -> (r: Option<usize>)
        ensures
            match r {
                Some(j) => j < states@.len() && Some(j as int) == spec_find_state(
                    states@,
                    state@,
                ),
                None => spec_find_state(states@, state@) is None,
            },
    {
        let n = states.len();
        let mut i: usize = 0;
        proof {
            assert(states@.skip(0) =~= states@);
        }
        while i < n
            invariant
                n == states@.len(),
                i <= n,
                spec_find_state(states@, state@) == match spec_find_state(
                    states@.skip(i as int),
                    state@,
                ) {
                    Some(j) => Some(j + i),
                    None => None::<int>,
                },
            decreases n - i,
        {
            proof {
                assert(states@.skip(i as int)[0] == states@[i as int]);
                assert(states@.skip(i as int).drop_first() =~= states@.skip(i + 1));
            }
            if string_eq(&states[i], state) {
                return Some(i);
            }
            i = i + 1;
        }
        proof {
            assert(states@.skip(n as int) =~= Seq::<String>::empty());
        }
        None
    }

    /// The id of a named state within a named machine, if both exist.  An id
    /// is the state's position in the configured order.
    pub fn get_state_id(&self, machine: &String, state: &String) -> (r: Option<i32>)
        ensures
            match r {
                Some(id) => spec_find_machine(self.machines@, machine@) matches Some(j)
                    && spec_find_state(self.machines@[j].states@, state@) matches Some(k) && id
                    == k && 0 <= k <= i32::MAX,
                None => spec_find_machine(self.machines@, machine@) is None || (spec_find_machine(
                    self.machines@,
                    machine@,
                ) matches Some(j) && (spec_find_state(self.machines@[j].states@, state@) is None
                    || spec_find_state(self.machines@[j].states@, state@)->Some_0 > i32::MAX)),
            },
    {
        match self.find_machine(machine) {
            Some(j) => {
                let m = &self.machines[j];
                match Self::find_state(&m.states, state) {
                    Some(k) => {
                        if k <= i32::MAX as usize {
                            Some(k as i32)
                        } else {
                            None
                        }
                    },
                    None => None,
                }
            },
            None => None,
        }
    }

    /// Advances a named machine by `traverse` steps, wrapping around its
    /// state count.  An unknown machine name changes nothing.  A negative
    /// traverse can leave a negative current id, deliberately: the
    /// machine then stands in no state, no membership event fires, and a
    /// later `set` or forward `next` brings it back.
    pub fn next(&mut self, machine: &String, traverse: i32)
        ensures
            match spec_find_machine(old(self).machines@, machine@) {
                Some(j) => {
                    &&& final(self).machines@.len() == old(self).machines@.len()
                    &&& forall|k: int|
                        0 <= k < old(self).machines@.len() && k != j ==> final(self).machines@[k]
                            == old(self).machines@[k]
                    &&& final(self).machines@[j].name == old(self).machines@[j].name
                    &&& final(self).machines@[j].states == old(self).machines@[j].states
                    &&& final(self).machines@[j].current == spec_next_current(
                        old(self).machines@[j],
                        traverse,
                    )
                },
                None => *final(self) == *old(self),
            },
    {
        let found = self.find_machine(machine);
        if let Some(j) = found {
            let len = self.machines[j].states.len();
            if len > 0 && len <= i32::MAX as usize {
                let cur = self.machines[j].current;
                let sum = cur.wrapping_add(traverse);
                let len32 = len as i32;
                let rem = if sum >= 0 {
                    sum % len32
                } else {
                    -((-(sum as i64)) as i64 % len32 as i64) as i32
                };
                proof {
                    assert(sum as int == (cur as int + traverse as int) % 0x1_0000_0000int - (if (
                    cur as int + traverse as int) % 0x1_0000_0000int >= 0x8000_0000int {
                        0x1_0000_0000int
                    } else {
                        0int
                    })) by (bit_vector)
                        requires
                            sum == cur.wrapping_add(traverse),
                    ;
                    assert(rem as int == spec_trunc_rem(sum as int, len32 as int));
                }
                let m = &mut self.machines[j];
                m.current = rem;
            }
        }
    }

    /// Sets a named machine to a named state.  An unknown machine or state
    /// name changes nothing.
    pub fn set(&mut self, machine: &String, state: &String)
        ensures
            match spec_find_machine(old(self).machines@, machine@) {
                Some(j) => {
                    &&& final(self).machines@.len() == old(self).machines@.len()
                    &&& forall|k: int|
                        0 <= k < old(self).machines@.len() && k != j ==> final(self).machines@[k]
                            == old(self).machines@[k]
                    &&& final(self).machines@[j].name == old(self).machines@[j].name
                    &&& final(self).machines@[j].states == old(self).machines@[j].states
                    &&& final(self).machines@[j].current == match spec_find_state(
                        old(self).machines@[j].states@,
                        state@,
                    ) {
                        Some(k) => if 0 <= k <= i32::MAX {
                            k as i32
                        } else {
                            old(self).machines@[j].current
                        },
                        None => old(self).machines@[j].current,
                    }
                },
                None => *final(self) == *old(self),
            },
    {
        let found = self.find_machine(machine);
        if let Some(j) = found {
            let id = {
                let m = &self.machines[j];
                match Self::find_state(&m.states, state) {
                    Some(k) => {
                        if k <= i32::MAX as usize {
                            Some(k as i32)
                        } else {
                            None
                        }
                    },
                    None => None,
                }
            };
            if let Some(k) = id {
                let m = &mut self.machines[j];
                m.current = k;
            }
        }
    }

    /// The current state id of a named machine, or -1 for an unknown name.
    pub fn get(&self, machine: &String) -> (r: i32)
        ensures
            r == match spec_find_machine(self.machines@, machine@) {
                Some(j) => self.machines@[j].current as int,
                None => -1int,
            },
    {
        match self.find_machine(machine) {
            Some(j) => self.machines[j].current,
            None => -1,
        }
    }
}

} // verus!
