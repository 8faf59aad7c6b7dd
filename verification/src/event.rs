//! The event model: discrete named conditions that select among alternative
//! property values, ordered by precedence.

pub mod default;
pub mod files;
pub mod state;
pub mod window;

use vstd::prelude::*;
use vstd::seq_lib::{to_multiset_build, to_multiset_insert};

verus! {

/// A discrete condition that can be active on a tick: the unconditional
/// default, a redraw request, pointer state, button state, a file change or
/// state-machine membership.  Button events carry an optional button id;
/// `None` stands for "any button".
#[derive(Debug, PartialEq, Eq)]
pub enum Event {
    Default,
    Expose,
    Hover,
    ButtonPress(Option<u8>),
    ButtonPressCont(Option<u8>),
    ButtonRelease(Option<u8>),
    ButtonReleaseCont(Option<u8>),
    FileChanged(String),
    StateIs(String, i32),
}

impl Clone for Event {
    fn clone(&self) -> (r: Self)
        ensures
            r == *self,
    {
        match self {
            Event::Default => Event::Default,
            Event::Expose => Event::Expose,
            Event::Hover => Event::Hover,
            Event::ButtonPress(b) => Event::ButtonPress(*b),
            Event::ButtonPressCont(b) => Event::ButtonPressCont(*b),
            Event::ButtonRelease(b) => Event::ButtonRelease(*b),
            Event::ButtonReleaseCont(b) => Event::ButtonReleaseCont(*b),
            Event::FileChanged(p) => Event::FileChanged(p.clone()),
            Event::StateIs(m, s) => Event::StateIs(m.clone(), *s),
        }
    }
}

/// Extra precedence for events that apply to any button rather than one
/// particular button id: the particular id is the more specific condition.
pub open spec fn spec_add_precedence(b: Option<u8>) -> u32 {
    match b {
        Some(_) => 0u32,
        None => 5u32,
    }
}

/// The total precedence order over events; a lower value is a more specific,
/// more preferred condition.  Continuous button events outrank discrete ones,
/// buttons outrank file changes and redraw requests, which outrank hover;
/// the default is always last.
pub open spec fn spec_precedence(e: Event) -> u32 {
    match e {
        Event::ButtonPressCont(b) => (101 + spec_add_precedence(b)) as u32,
        Event::ButtonReleaseCont(b) => (101 + spec_add_precedence(b)) as u32,
        Event::ButtonPress(b) => (111 + spec_add_precedence(b)) as u32,
        Event::ButtonRelease(b) => (111 + spec_add_precedence(b)) as u32,
        Event::FileChanged(_) => 150u32,
        Event::Expose => 160u32,
        Event::Hover => 200u32,
        Event::StateIs(_, _) => 300u32,
        Event::Default => 1000u32,
    }
}

/// Whether an event's applicability requires the pointer to be inside the
/// widget's hit region.
pub open spec fn spec_mouse_dependent(e: Event) -> bool {
    match e {
        Event::Hover => true,
        Event::ButtonPress(_) => true,
        Event::ButtonPressCont(_) => true,
        Event::ButtonRelease(_) => true,
        Event::ButtonReleaseCont(_) => true,
        _ => false,
    }
}

/// Whether an event is an explicit redraw request.
pub open spec fn spec_is_expose(e: Event) -> bool {
    e is Expose
}

/// Equality of events: same tag and same payload.  Text payloads are
/// compared by their character sequences.
pub open spec fn spec_event_eq(a: Event, b: Event) -> bool {
    match (a, b) {
        (Event::Default, Event::Default) => true,
        (Event::Expose, Event::Expose) => true,
        (Event::Hover, Event::Hover) => true,
        (Event::ButtonPress(x), Event::ButtonPress(y)) => x == y,
        (Event::ButtonPressCont(x), Event::ButtonPressCont(y)) => x == y,
        (Event::ButtonRelease(x), Event::ButtonRelease(y)) => x == y,
        (Event::ButtonReleaseCont(x), Event::ButtonReleaseCont(y)) => x == y,
        (Event::FileChanged(x), Event::FileChanged(y)) => x@ == y@,
        (Event::StateIs(m, s), Event::StateIs(n, t)) => m@ == n@ && s == t,
        _ => false,
    }
}

/// Event equality is an equivalence relation.
pub proof fn lemma_event_eq_equivalence(a: Event, b: Event, c: Event)
    ensures
        spec_event_eq(a, a),
        spec_event_eq(a, b) == spec_event_eq(b, a),
        spec_event_eq(a, b) && spec_event_eq(b, c) ==> spec_event_eq(a, c),
{
}

/// The operations every event offers: its place in the precedence order,
/// whether it depends on the pointer, and whether it requests a redraw.
pub trait EventTrait {
    spec fn prec_spec(&self) -> u32;

    spec fn mouse_dependent_spec(&self) -> bool;

    spec fn is_expose_spec(&self) -> bool;

    fn precedence(&self) -> (r: u32)
        ensures
            r == self.prec_spec(),
    ;

    fn mouse_dependent(&self) -> (r: bool)
        ensures
            r == self.mouse_dependent_spec(),
    ;

    fn is_expose(&self) -> (r: bool)
        ensures
            r == self.is_expose_spec(),
    ;
}

impl EventTrait for Event {
    open spec fn prec_spec(&self) -> u32 {
        spec_precedence(*self)
    }

    open spec fn mouse_dependent_spec(&self) -> bool {
        spec_mouse_dependent(*self)
    }

    open spec fn is_expose_spec(&self) -> bool {
        spec_is_expose(*self)
    }

    fn precedence(&self) -> (r: u32)
        ensures
            r == spec_precedence(*self),
    {
        match self {
            Event::ButtonPressCont(b) => 101 + add_precedence(b),
            Event::ButtonReleaseCont(b) => 101 + add_precedence(b),
            Event::ButtonPress(b) => 111 + add_precedence(b),
            Event::ButtonRelease(b) => 111 + add_precedence(b),
            Event::FileChanged(_) => 150,
            Event::Expose => 160,
            Event::Hover => 200,
            Event::StateIs(_, _) => 300,
            Event::Default => 1000,
        }
    }

    fn mouse_dependent(&self) -> (r: bool)
        ensures
            r == spec_mouse_dependent(*self),
    {
        match self {
            Event::Hover => true,
            Event::ButtonPress(_) => true,
            Event::ButtonPressCont(_) => true,
            Event::ButtonRelease(_) => true,
            Event::ButtonReleaseCont(_) => true,
            _ => false,
        }
    }

    fn is_expose(&self) -> (r: bool)
        ensures
            r == spec_is_expose(*self),
    {
        match self {
            Event::Expose => true,
            _ => false,
        }
    }
}

/// Extra precedence for "any button" over one particular button id.
pub fn add_precedence(b: &Option<u8>) -> (r: u32)
    ensures
        r == spec_add_precedence(*b),
{
    match b {
        Some(_) => 0,
        None => 5,
    }
}

/// Compares two events for equality of tag and payload.
pub fn event_eq(a: &Event, b: &Event) -> (r: bool)
    ensures
        r == spec_event_eq(*a, *b),
{
    match a {
        Event::Default => match b {
            Event::Default => true,
            _ => false,
        },
        Event::Expose => match b {
            Event::Expose => true,
            _ => false,
        },
        Event::Hover => match b {
            Event::Hover => true,
            _ => false,
        },
        Event::ButtonPress(x) => match b {
            Event::ButtonPress(y) => option_u8_eq(x, y),
            _ => false,
        },
        Event::ButtonPressCont(x) => match b {
            Event::ButtonPressCont(y) => option_u8_eq(x, y),
            _ => false,
        },
        Event::ButtonRelease(x) => match b {
            Event::ButtonRelease(y) => option_u8_eq(x, y),
            _ => false,
        },
        Event::ButtonReleaseCont(x) => match b {
            Event::ButtonReleaseCont(y) => option_u8_eq(x, y),
            _ => false,
        },
        Event::FileChanged(x) => match b {
            Event::FileChanged(y) => string_eq(x, y),
            _ => false,
        },
        Event::StateIs(m, s) => match b {
            Event::StateIs(n, t) => *s == *t && string_eq(m, n),
            _ => false,
        },
    }
}

/// Compares two strings by their character sequences.
pub fn string_eq(a: &String, b: &String) -> (r: bool)
    ensures
        r == (a@ == b@),
{
    a.eq(b)
}

fn option_u8_eq(a: &Option<u8>, b: &Option<u8>) -> (r: bool)
    ensures
        r == (*a == *b),
{
    match (a, b) {
        (Some(x), Some(y)) => *x == *y,
        (None, None) => true,
        _ => false,
    }
}

/// The classes the precedence order must respect: every button event comes
/// before hover; file-change and redraw-request events come after every
/// continuous button event and before hover; the default comes last.
pub proof fn lemma_precedence_order(a: Event, b: Event)
    ensures
        (a matches Event::ButtonPressCont(_) || a matches Event::ButtonReleaseCont(_)) && (
        b is FileChanged || b is Expose) ==> spec_precedence(a) < spec_precedence(b),
        (b is FileChanged || b is Expose) ==> spec_precedence(b) < spec_precedence(Event::Hover),
        (a matches Event::ButtonPress(_) || a matches Event::ButtonRelease(_)
            || a matches Event::ButtonPressCont(_) || a matches Event::ButtonReleaseCont(_))
            ==> spec_precedence(a) < spec_precedence(Event::Hover),
        !(a is Default) ==> spec_precedence(a) < spec_precedence(Event::Default),
{
}

/// A sequence is ordered by precedence.
pub open spec fn sorted_by_precedence(s: Seq<Event>) -> bool {
    forall|i: int, j: int|
        0 <= i < j < s.len() ==> spec_precedence(s[i]) <= spec_precedence(s[j])
}

/// Sorts events by precedence, most preferred first, keeping the multiset of
/// events intact.  Events of equal precedence keep their relative order: an
/// element is inserted after every earlier element of equal precedence.
pub fn sort_events(v: Vec<Event>) -> (r: Vec<Event>)
    ensures
        sorted_by_precedence(r@),
        r@.to_multiset() == v@.to_multiset(),
{
    let mut r: Vec<Event> = Vec::new();
    let mut i: usize = 0;
    proof {
        assert(v@.subrange(0, 0) =~= r@);
    }
    while i < v.len()
        invariant
            i <= v.len(),
            sorted_by_precedence(r@),
            r@.to_multiset() == v@.subrange(0, i as int).to_multiset(),
        decreases v.len() - i,
    {
        let e = v[i].clone();
        proof {
            to_multiset_build(v@.subrange(0, i as int), v@[i as int]);
            assert(v@.subrange(0, i as int).push(v@[i as int]) =~= v@.subrange(0, i + 1));
        }
        insert_by_precedence(&mut r, e);
        i = i + 1;
    }
    proof {
        assert(v@.subrange(0, v@.len() as int) =~= v@);
    }
    r
}

/// Inserts one event into a precedence-sorted vector, after every element of
/// lower or equal precedence.
fn insert_by_precedence(r: &mut Vec<Event>, e: Event)
    requires
        sorted_by_precedence(old(r)@),
    ensures
        sorted_by_precedence(final(r)@),
        final(r)@.to_multiset() == old(r)@.to_multiset().insert(e),
{
    let mut j: usize = 0;
    while j < r.len() && r[j].precedence() <= e.precedence()
        invariant
            j <= r@.len(),
            r@ == old(r)@,
            sorted_by_precedence(r@),
            forall|k: int| 0 <= k < j ==> spec_precedence(r@[k]) <= spec_precedence(e),
        decreases r@.len() - j,
    {
        j = j + 1;
    }
    proof {
        to_multiset_insert(r@, j as int, e);
    }
    r.insert(j, e);
    proof {
        assert forall|p: int, q: int|
            0 <= p < q < r@.len() implies spec_precedence(r@[p]) <= spec_precedence(
            r@[q],
        ) by {
            assert(r@ == old(r)@.insert(j as int, e));
        }
    }
}

/// The listeners of all event sources, and the reading of configured
/// event names.
#[derive(Debug)]
pub struct EventListeners {
    pub files: crate::event::files::FilesListener,
    pub window: crate::event::window::WindowListener,
    pub state: crate::event::state::StateListener,
    pub fallback: crate::event::default::DefaultListener,
}

impl EventListeners {
    /// Listeners with nothing registered and no button held.
    pub fn new() -> (r: Self)
        ensures
            crate::event::window::spec_listener_wf(r.window),
            r.files.files_to_watch@.len() == 0,
            r.state.subscriptions@.len() == 0,
    {
        Self {
            files: crate::event::files::FilesListener::new(),
            window: crate::event::window::WindowListener::new(),
            state: crate::event::state::StateListener::new(),
            fallback: crate::event::default::DefaultListener,
        }
    }

    /// Reads a configured event name and its settings into an event,
    /// registering what the event source must watch: a file path with its
    /// baseline modification time, or a state subscription.  An unknown
    /// name, button word or state is a configuration error and reads as
    /// nothing.
    pub fn event(
        &mut self,
        name: &String,
        settings: &String,
        states: &crate::command::state::StateSingleton,
        workdir: &Option<String>,
        file_baseline: u64,
    ) -> (r: Option<Event>)
        ensures
            name@ == "default"@ ==> r == Some(Event::Default) && *final(self) == *old(self),
            name@ == "on_hover"@ ==> r == Some(Event::Hover) && *final(self) == *old(self),
            name@ == "on_press"@ ==> *final(self) == *old(self) && r == match
                crate::event::window::spec_mouse_button(settings@) {
                Some(b) => Some(Event::ButtonPress(b)),
                None => None::<Event>,
            },
            name@ == "on_press_cont"@ ==> *final(self) == *old(self) && r == match
                crate::event::window::spec_mouse_button(settings@) {
                Some(b) => Some(Event::ButtonPressCont(b)),
                None => None::<Event>,
            },
            name@ == "on_release"@ ==> *final(self) == *old(self) && r == match
                crate::event::window::spec_mouse_button(settings@) {
                Some(b) => Some(Event::ButtonRelease(b)),
                None => None::<Event>,
            },
            name@ == "on_release_cont"@ ==> *final(self) == *old(self) && r == match
                crate::event::window::spec_mouse_button(settings@) {
                Some(b) => Some(Event::ButtonReleaseCont(b)),
                None => None::<Event>,
            },
            name@ == "on_file_changed"@ ==> (r matches Some(e) && (e matches Event::FileChanged(
                p,
            ) && p@ == spec_watch_path(*workdir, settings@))
                && final(self).files.files_to_watch@.len() == old(self).files.files_to_watch@.len() + 1
                && final(self).files.files_to_watch@.last().0@ == spec_watch_path(
                *workdir,
                settings@,
            ) && final(self).files.files_to_watch@.last().1 == file_baseline
                && final(self).files.files_to_watch@.drop_last() == old(self).files.files_to_watch@ && final(self).window == old(self).window && final(self).state == old(self).state),
            name@ == "on_state"@ ==> match crate::utils::spec_find_char(settings@, '=') {
                None => r is None && *final(self) == *old(self),
                Some(j) => {
                    let machine = settings@.take(j);
                    let statename = settings@.skip(j + 1);
                    match crate::command::state::spec_find_machine(states.machines@, machine) {
                        None => r is None && *final(self) == *old(self),
                        Some(mi) => match crate::command::state::spec_find_state(
                            states.machines@[mi].states@,
                            statename,
                        ) {
                            None => r is None && *final(self) == *old(self),
                            Some(k) => if k <= i32::MAX {
                                r matches Some(e) && (e matches Event::StateIs(m, sid) && m@
                                    == machine && sid == k)
                                    && final(self).state.subscriptions@.len() == old(self).state.subscriptions@.len() + 1
                                    && final(self).state.subscriptions@.last().0@ == machine
                                    && final(self).state.subscriptions@.last().1 == k
                                    && final(self).state.subscriptions@.drop_last() == old(self).state.subscriptions@ && final(self).files == old(self).files
                                    && final(self).window == old(self).window
                            } else {
                                r is None && *final(self) == *old(self)
                            },
                        },
                    }
                },
            },
            !(name@ == "default"@ || name@ == "on_hover"@ || name@ == "on_press"@ || name@
                == "on_press_cont"@ || name@ == "on_release"@ || name@ == "on_release_cont"@
                || name@ == "on_file_changed"@ || name@ == "on_state"@) ==> r is None && *final(self) == *old(self),
    {
        proof {
            reveal_strlit("default");
            reveal_strlit("on_hover");
            reveal_strlit("on_press");
            reveal_strlit("on_press_cont");
            reveal_strlit("on_release");
            reveal_strlit("on_release_cont");
            reveal_strlit("on_file_changed");
            reveal_strlit("on_state");
            assert(("default"@).len() == 7);
            assert(("on_hover"@).len() == 8 && ("on_hover"@)[3] == 'h');
            assert(("on_press"@).len() == 8 && ("on_press"@)[3] == 'p');
            assert(("on_state"@).len() == 8 && ("on_state"@)[3] == 's');
            assert(("on_press_cont"@).len() == 13);
            assert(("on_release"@).len() == 10);
            assert(("on_release_cont"@).len() == 15 && ("on_release_cont"@)[3] == 'r');
            assert(("on_file_changed"@).len() == 15 && ("on_file_changed"@)[3] == 'f');
        }
        if string_eq(name, &String::from_str("default")) {
            Some(Event::Default)
        } else if string_eq(name, &String::from_str("on_hover")) {
            Some(Event::Hover)
        } else if string_eq(name, &String::from_str("on_press")) {
            match crate::event::window::mouse_button(settings) {
                Some(b) => Some(Event::ButtonPress(b)),
                None => None,
            }
        } else if string_eq(name, &String::from_str("on_press_cont")) {
            match crate::event::window::mouse_button(settings) {
                Some(b) => Some(Event::ButtonPressCont(b)),
                None => None,
            }
        } else if string_eq(name, &String::from_str("on_release")) {
            match crate::event::window::mouse_button(settings) {
                Some(b) => Some(Event::ButtonRelease(b)),
                None => None,
            }
        } else if string_eq(name, &String::from_str("on_release_cont")) {
            match crate::event::window::mouse_button(settings) {
                Some(b) => Some(Event::ButtonReleaseCont(b)),
                None => None,
            }
        } else if string_eq(name, &String::from_str("on_file_changed")) {
            let path = watch_path(workdir, settings);
            self.files.register(path.clone(), file_baseline);
            Some(Event::FileChanged(path))
        } else if string_eq(name, &String::from_str("on_state")) {
            match crate::utils::find_char(settings.as_str(), '=') {
                Some(j) => {
                    proof {
                        crate::utils::lemma_find_char(settings@, '=');
                    }
                    let n = settings.as_str().unicode_len();
                    let machine = String::from_str(settings.as_str().substring_char(0, j));
                    let statename = String::from_str(settings.as_str().substring_char(j + 1, n));
                    match states.get_state_id(&machine, &statename) {
                        Some(sid) => {
                            self.state.subscribe(machine.clone(), sid);
                            Some(Event::StateIs(machine, sid))
                        },
                        None => None,
                    }
                },
                None => None,
            }
        } else {
            None
        }
    }

    /// Gathers this tick's events from every source, sorted by
    /// precedence: the platform inputs, the file changes given the
    /// observed modification times, the state subscriptions that hold,
    /// and always the default event.
    pub fn get(
        &mut self,
        window_inputs: &Vec<crate::event::window::WindowInput>,
        file_mtimes: &Vec<u64>,
        states: &crate::command::state::StateSingleton,
    ) -> (r: Vec<Event>)
        requires
            crate::event::window::spec_listener_wf(old(self).window),
            file_mtimes@.len() == old(self).files.files_to_watch@.len(),
        ensures
            crate::event::window::spec_listener_wf(final(self).window),
            final(self).files.files_to_watch@.len() == old(self).files.files_to_watch@.len(),
            final(self).state == old(self).state,
            sorted_by_precedence(r@),
            r@.to_multiset() == (crate::event::files::spec_file_events(
                old(self).files.files_to_watch@,
                file_mtimes@,
            ) + crate::event::window::spec_inputs_events(window_inputs@)
                + crate::event::window::spec_cont_events(final(self).window.button_state@, 32)
                + seq![
                if crate::event::window::spec_count_true(final(self).window.button_state@) > 0 {
                    Event::ButtonPressCont(None)
                } else {
                    Event::ButtonReleaseCont(None)
                },
            ] + seq![Event::Hover] + crate::event::state::spec_state_events(
                old(self).state.subscriptions@,
                *states,
            ) + seq![Event::Default]).to_multiset(),
            crate::props::spec_contains_default(r@),
            exists|i: int| 0 <= i < r@.len() && (#[trigger] r@[i]) is Hover,
    {
        let mut v: Vec<Event> = Vec::new();
        self.files.check(file_mtimes, &mut v);
        self.window.get(window_inputs, &mut v);
        let ghost hover_at = v@.len() - 1;
        self.state.get(states, &mut v);
        self.fallback.get(&mut v);
        proof {
            broadcast use vstd::seq_lib::group_to_multiset_ensures;
            assert(v@ =~= crate::event::files::spec_file_events(
                old(self).files.files_to_watch@,
                file_mtimes@,
            ) + crate::event::window::spec_inputs_events(window_inputs@)
                + crate::event::window::spec_cont_events(self.window.button_state@, 32) + seq![
                if crate::event::window::spec_count_true(self.window.button_state@) > 0 {
                    Event::ButtonPressCont(None)
                } else {
                    Event::ButtonReleaseCont(None)
                },
            ] + seq![Event::Hover] + crate::event::state::spec_state_events(
                old(self).state.subscriptions@,
                *states,
            ) + seq![Event::Default]);
            assert(v@[v@.len() - 1] is Default);
            assert(v@.contains(Event::Default));
            assert(v@.to_multiset().count(Event::Default) > 0);
            assert(v@[hover_at] is Hover);
            assert(v@.contains(Event::Hover));
            assert(v@.to_multiset().count(Event::Hover) > 0);
        }
        let r = sort_events(v);
        proof {
            broadcast use vstd::seq_lib::group_to_multiset_ensures;
            assert(r@.to_multiset().count(Event::Default) > 0);
            assert(r@.contains(Event::Default));
            let i = choose|i: int| 0 <= i < r@.len() && r@[i] == Event::Default;
            assert(r@[i] is Default);
            assert(r@.to_multiset().count(Event::Hover) > 0);
            assert(r@.contains(Event::Hover));
            let j = choose|j: int| 0 <= j < r@.len() && r@[j] == Event::Hover;
            assert(r@[j] is Hover);
        }
        r
    }
}

/// The path a watched file name denotes: an absolute name as it is, a
/// relative one under the configuration directory.
pub open spec fn spec_watch_path(workdir: Option<String>, name: Seq<char>) -> Seq<char> {
    if name.len() > 0 && name[0] == '/' {
        name
    } else {
        match workdir {
            Some(w) => w@ + "/"@ + name,
            None => name,
        }
    }
}

/// The path a watched file name denotes.
fn watch_path(workdir: &Option<String>, name: &String) -> (r: String)
    ensures
        r@ == spec_watch_path(*workdir, name@),
{
    let n = name.as_str().unicode_len();
    if n > 0 && name.as_str().get_char(0) == '/' {
        return name.clone();
    }
    match workdir {
        Some(w) => {
            let mut out = w.clone();
            out.push('/');
            out.append(name.as_str());
            proof {
                reveal_strlit("/");
                assert(out@ =~= spec_watch_path(*workdir, name@));
            }
            out
        },
        None => name.clone(),
    }
}

} // verus!
