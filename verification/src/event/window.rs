//! The window listener: turns the platform's pointer and exposure inputs
//! into events, and tracks which buttons are held down for the continuous
//! button events.

use vstd::prelude::*;
use crate::event::Event;

verus! {

/// One platform input, as the driver hands it in: an exposure, or a
/// button going down or up.
#[derive(Clone, Copy, Debug, PartialEq, Eq, Structural)]
pub enum WindowInput {
    Expose,
    ButtonPress(u8),
    ButtonRelease(u8),
    Other,
}

/// The window listener: which of the first 32 buttons are held, and how
/// many are.
#[derive(Debug)]
pub struct WindowListener {
    pub button_state: Vec<bool>,
    pub num_buttons_pressed: usize,
}

/// How many entries of a sequence are set.
pub open spec fn spec_count_true(s: Seq<bool>) -> int
    decreases s.len(),
{
    if s.len() == 0 {
        0
    } else {
        spec_count_true(s.drop_last()) + if s.last() {
            1int
        } else {
            0int
        }
    }
}

/// A well-formed listener: 32 tracked buttons, and the held count equals
/// the number of set entries.
pub open spec fn spec_listener_wf(l: WindowListener) -> bool {
    l.button_state@.len() == 32 && l.num_buttons_pressed == spec_count_true(l.button_state@)
        && 0 <= spec_count_true(l.button_state@) <= 32
}

/// Toggling one entry moves the count by one.
proof fn lemma_count_true_update(s: Seq<bool>, i: int, b: bool)
    requires
        0 <= i < s.len(),
    ensures
        spec_count_true(s.update(i, b)) == spec_count_true(s) + (if b {
            1int
        } else {
            0int
        }) - (if s[i] {
            1int
        } else {
            0int
        }),
    decreases s.len(),
{
    if s.len() > 0 {
        if i == s.len() - 1 {
            assert(s.update(i, b).drop_last() =~= s.drop_last());
        } else {
            assert(s.update(i, b).drop_last() =~= s.drop_last().update(i, b));
            lemma_count_true_update(s.drop_last(), i, b);
        }
    }
}

/// The count never exceeds the length.
proof fn lemma_count_true_bounds(s: Seq<bool>)
    ensures
        0 <= spec_count_true(s) <= s.len(),
    decreases s.len(),
{
    if s.len() > 0 {
        lemma_count_true_bounds(s.drop_last());
    }
}

/// The events one platform input raises: a redraw request for an
/// exposure; for a button, the any-button event then the particular
/// button's event.
pub open spec fn spec_input_events(ev: WindowInput) -> Seq<Event> {
    match ev {
        WindowInput::Expose => seq![Event::Expose],
        WindowInput::ButtonPress(b) => seq![Event::ButtonPress(None), Event::ButtonPress(Some(b))],
        WindowInput::ButtonRelease(b) => seq![
            Event::ButtonRelease(None),
            Event::ButtonRelease(Some(b)),
        ],
        WindowInput::Other => Seq::<Event>::empty(),
    }
}

/// The events a tick's platform inputs raise, in input order.
pub open spec fn spec_inputs_events(inputs: Seq<WindowInput>) -> Seq<Event>
    decreases inputs.len(),
{
    if inputs.len() == 0 {
        Seq::<Event>::empty()
    } else {
        spec_inputs_events(inputs.drop_last()) + spec_input_events(inputs.last())
    }
}

/// How one input moves the held-button table: a press sets its tracked
/// entry, a release clears it; buttons beyond the table are untouched.
pub open spec fn spec_apply_input(state: Seq<bool>, ev: WindowInput) -> Seq<bool> {
    match ev {
        WindowInput::ButtonPress(b) => if b < 32 {
            state.update(b as int, true)
        } else {
            state
        },
        WindowInput::ButtonRelease(b) => if b < 32 {
            state.update(b as int, false)
        } else {
            state
        },
        _ => state,
    }
}

/// The held-button table after a tick's inputs, in order.
pub open spec fn spec_apply_inputs(state: Seq<bool>, inputs: Seq<WindowInput>) -> Seq<bool>
    decreases inputs.len(),
{
    if inputs.len() == 0 {
        state
    } else {
        spec_apply_input(spec_apply_inputs(state, inputs.drop_last()), inputs.last())
    }
}

/// The continuous button events of the tracked buttons below a bound: a
/// press event for each held button, a release event for each other, by
/// ascending id.
pub open spec fn spec_cont_events(state: Seq<bool>, upto: int) -> Seq<Event>
    recommends
        0 <= upto <= state.len(),
    decreases upto,
{
    if upto <= 0 {
        Seq::<Event>::empty()
    } else {
        spec_cont_events(state, upto - 1) + seq![
            if state[upto - 1] {
                Event::ButtonPressCont(Some((upto - 1) as u8))
            } else {
                Event::ButtonReleaseCont(Some((upto - 1) as u8))
            },
        ]
    }
}

impl WindowListener {
    /// A listener with no button held.
    pub fn new() -> (r: Self)
        ensures
            spec_listener_wf(r),
            r.num_buttons_pressed == 0,
    {
        let mut button_state: Vec<bool> = Vec::new();
        let mut i: usize = 0;
        while i < 32
            invariant
                i <= 32,
                button_state@.len() == i,
                spec_count_true(button_state@) == 0,
                forall|k: int| 0 <= k < i ==> !(#[trigger] button_state@[k]),
            decreases 32 - i,
        {
            let ghost b0 = button_state@;
            button_state.push(false);
            proof {
                assert(button_state@.drop_last() =~= b0);
            }
            i = i + 1;
        }
        Self { button_state, num_buttons_pressed: 0 }
    }

    /// Turns one platform input into its events: a press or release
    /// raises the discrete events, for the particular button and for any
    /// button, and updates which buttons are held.  Buttons beyond the 32
    /// tracked ones raise their discrete events but are not tracked.
    pub fn input(&mut self, ev: WindowInput, v: &mut Vec<Event>)
        requires
            spec_listener_wf(*old(self)),
        ensures
            spec_listener_wf(*final(self)),
            final(v)@ == old(v)@ + spec_input_events(ev),
            final(self).button_state@ == spec_apply_input(old(self).button_state@, ev),
    {
        match ev {
            WindowInput::Expose => {
                v.push(Event::Expose);
            },
            WindowInput::ButtonPress(b) => {
                v.push(Event::ButtonPress(None));
                v.push(Event::ButtonPress(Some(b)));
                if (b as usize) < 32 {
                    proof {
                        lemma_count_true_update(self.button_state@, b as int, true);
                        lemma_count_true_bounds(self.button_state@.update(b as int, true));
                    }
                    if !self.button_state[b as usize] {
                        self.button_state.set(b as usize, true);
                        self.num_buttons_pressed = self.num_buttons_pressed + 1;
                    } else {
                        proof {
                            assert(self.button_state@.update(b as int, true)
                                =~= self.button_state@);
                        }
                    }
                }
            },
            WindowInput::ButtonRelease(b) => {
                v.push(Event::ButtonRelease(None));
                v.push(Event::ButtonRelease(Some(b)));
                if (b as usize) < 32 {
                    proof {
                        lemma_count_true_update(
                            self.button_state@,
                            b as int,
                            false,
                        );
                        lemma_count_true_bounds(self.button_state@.update(b as int, false));
                    }
                    if self.button_state[b as usize] {
                        self.button_state.set(b as usize, false);
                        self.num_buttons_pressed = self.num_buttons_pressed - 1;
                    } else {
                        proof {
                            assert(self.button_state@.update(b as int, false)
                                =~= self.button_state@);
                        }
                    }
                }
            },
            WindowInput::Other => {},
        }
        proof {
            assert(v@ =~= old(v)@ + spec_input_events(ev));
        }
    }

    /// Turns the tick's platform inputs into events, then raises the
    /// continuous button events for every tracked button, the any-button
    /// continuous event, and the hover event.
    pub fn get(&mut self, inputs: &Vec<WindowInput>, v: &mut Vec<Event>)
        requires
            spec_listener_wf(*old(self)),
        ensures
            spec_listener_wf(*final(self)),
            final(self).button_state@ == spec_apply_inputs(old(self).button_state@, inputs@),
            final(v)@ == old(v)@ + spec_inputs_events(inputs@) + spec_cont_events(
                final(self).button_state@,
                32,
            ) + seq![
                if spec_count_true(final(self).button_state@) > 0 {
                    Event::ButtonPressCont(None)
                } else {
                    Event::ButtonReleaseCont(None)
                },
            ] + seq![Event::Hover],
    {
        let n = inputs.len();
        let ghost v0 = v@;
        proof {
            assert(inputs@.take(0int) =~= Seq::<WindowInput>::empty());
            assert(v@ =~= v0 + spec_inputs_events(inputs@.take(0int)));
        }
        let mut i: usize = 0;
        while i < n
            invariant
                spec_listener_wf(*self),
                n == inputs@.len(),
                i <= n,
                self.button_state@ == spec_apply_inputs(
                    old(self).button_state@,
                    inputs@.take(i as int),
                ),
                v@ == v0 + spec_inputs_events(inputs@.take(i as int)),
            decreases n - i,
        {
            proof {
                assert(inputs@.take(i + 1).drop_last() =~= inputs@.take(i as int));
                assert(inputs@.take(i + 1).last() == inputs@[i as int]);
            }
            self.input(inputs[i], v);
            i = i + 1;
        }
        proof {
            assert(inputs@.take(n as int) =~= inputs@);
        }
        let ghost v1 = v@;
        let mut b: u8 = 0;
        while b < 32
            invariant
                spec_listener_wf(*self),
                self.button_state@ == spec_apply_inputs(old(self).button_state@, inputs@),
                b <= 32,
                v@ == v1 + spec_cont_events(self.button_state@, b as int),
            decreases 32 - b,
        {
            if self.button_state[b as usize] {
                v.push(Event::ButtonPressCont(Some(b)));
            } else {
                v.push(Event::ButtonReleaseCont(Some(b)));
            }
            proof {
                assert(v@ =~= v1 + spec_cont_events(self.button_state@, b + 1));
            }
            b = b + 1;
        }
        if self.num_buttons_pressed > 0 {
            v.push(Event::ButtonPressCont(None));
        } else {
            v.push(Event::ButtonReleaseCont(None));
        }
        v.push(Event::Hover);
        proof {
            assert(v@ =~= old(v)@ + spec_inputs_events(inputs@) + spec_cont_events(
                self.button_state@,
                32,
            ) + seq![
                if spec_count_true(self.button_state@) > 0 {
                    Event::ButtonPressCont(None)
                } else {
                    Event::ButtonReleaseCont(None)
                },
            ] + seq![Event::Hover]);
        }
    }
}

/// The button id a configuration word names: the empty word is any
/// button, the named buttons have their usual ids, and a decimal number
/// up to 255 names the button directly.  Any other word names nothing:
/// that is a configuration error.
pub open spec fn spec_mouse_button(s: Seq<char>) -> Option<Option<u8>> {
    if s.len() == 0 {
        Some(None::<u8>)
    } else if s == "left"@ {
        Some(Some(1u8))
    } else if s == "middle"@ {
        Some(Some(2u8))
    } else if s == "right"@ {
        Some(Some(3u8))
    } else if s == "scroll_up"@ {
        Some(Some(4u8))
    } else if s == "scroll_down"@ {
        Some(Some(5u8))
    } else if crate::command::alsa::spec_all_digits(s) && crate::command::alsa::spec_digits_value(
        s,
    ) <= 255 {
        Some(Some(crate::command::alsa::spec_digits_value(s) as u8))
    } else {
        None
    }
}

/// The button id a configuration word names: the empty word is any
/// button, the named buttons have their usual ids, and a number names the
/// button directly.  An unreadable word names nothing: that is a
/// configuration error.
pub fn mouse_button(s: &String) -> (r: Option<Option<u8>>)
    ensures
        r == spec_mouse_button(s@),
{
    proof {
        reveal_strlit("");
        reveal_strlit("left");
        reveal_strlit("middle");
        reveal_strlit("right");
        reveal_strlit("scroll_up");
        reveal_strlit("scroll_down");
    }
    if s.as_str().unicode_len() == 0 {
        Some(None)
    } else if crate::event::string_eq(s, &String::from_str("left")) {
        Some(Some(1))
    } else if crate::event::string_eq(s, &String::from_str("middle")) {
        Some(Some(2))
    } else if crate::event::string_eq(s, &String::from_str("right")) {
        Some(Some(3))
    } else if crate::event::string_eq(s, &String::from_str("scroll_up")) {
        Some(Some(4))
    } else if crate::event::string_eq(s, &String::from_str("scroll_down")) {
        Some(Some(5))
    } else {
        match parse_u8(s.as_str()) {
            Some(n) => Some(Some(n)),
            None => None,
        }
    }
}

/// Reads a small decimal number, up to 255.
fn parse_u8(s: &str) -> (r: Option<u8>)
    ensures
        r == if crate::command::alsa::spec_all_digits(s@) && s@.len() >= 1
            && crate::command::alsa::spec_digits_value(s@) <= 255 {
            Some(crate::command::alsa::spec_digits_value(s@) as u8)
        } else {
            None::<u8>
        },
{
    let n = s.unicode_len();
    if n == 0 {
        return None;
    }
    let mut v: u32 = 0;
    let mut i: usize = 0;
    proof {
        assert(s@.take(0int) =~= Seq::<char>::empty());
    }
    while i < n
        invariant
            n == s@.len(),
            i <= n,
            crate::command::alsa::spec_all_digits(s@.take(i as int)),
            v <= 2559,
            if crate::command::alsa::spec_digits_value(s@.take(i as int)) <= 255 {
                v == crate::command::alsa::spec_digits_value(s@.take(i as int))
            } else {
                v > 255
            },
        decreases n - i,
    {
        let c = s.get_char(i);
        if !('0' <= c && c <= '9') {
            return None;
        }
        proof {
            assert(s@.take(i + 1).drop_last() =~= s@.take(i as int));
            crate::command::alsa::lemma_digits_value_nonneg(s@.take(i as int));
        }
        let d = (c as u32) - ('0' as u32);
        v = if v > 255 {
            256
        } else {
            v * 10 + d
        };
        i = i + 1;
    }
    proof {
        assert(s@.take(n as int) =~= s@);
    }
    if v <= 255 {
        Some(v as u8)
    } else {
        None
    }
}

} // verus!
