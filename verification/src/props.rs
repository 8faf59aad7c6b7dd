//! Per-attribute mapping from events to values, resolved against the active
//! event list.

use vstd::prelude::*;
use crate::event::{Event, EventTrait, event_eq, spec_event_eq, spec_mouse_dependent};

verus! {

/// A property: a map from events to values of one attribute, held as a list
/// of pairs.  A well-formed property always contains an entry for
/// `Event::Default`, so resolution can never come up empty.
pub struct Prop<T> {
    pub pairs: Vec<(Event, T)>,
}

/// The value stored for an event: the first pair whose key equals `e`.
pub open spec fn spec_lookup<T>(pairs: Seq<(Event, T)>, e: Event) -> Option<T>
    decreases pairs.len(),
{
    if pairs.len() == 0 {
        None
    } else if spec_event_eq(pairs[0].0, e) {
        Some(pairs[0].1)
    } else {
        spec_lookup(pairs.drop_first(), e)
    }
}

/// An event is skipped during resolution when it requires the pointer inside
/// the region but the pointer is outside.
pub open spec fn spec_skipped(e: Event, mouse_inside: bool) -> bool {
    spec_mouse_dependent(e) && !mouse_inside
}

/// The resolution of a property against an active event list: the first
/// non-skipped event that has an entry, together with its value.
pub open spec fn spec_resolve<T>(
    pairs: Seq<(Event, T)>,
    events: Seq<Event>,
    mouse_inside: bool,
) -> Option<(Event, T)>
    decreases events.len(),
{
    if events.len() == 0 {
        None
    } else if !spec_skipped(events[0], mouse_inside) && spec_lookup(pairs, events[0]) is Some {
        Some((events[0], spec_lookup(pairs, events[0])->Some_0))
    } else {
        spec_resolve(pairs, events.drop_first(), mouse_inside)
    }
}

/// A property that holds an entry for the default event.
pub open spec fn spec_has_default<T>(pairs: Seq<(Event, T)>) -> bool {
    spec_lookup(pairs, Event::Default) is Some
}

/// An event list that contains the default event.
pub open spec fn spec_contains_default(events: Seq<Event>) -> bool {
    exists|i: int| 0 <= i < events.len() && events[i] is Default
}

/// Resolution is total: whenever the property has a default entry and the
/// default event is among the active events, a value is found, whatever the
/// pointer position.
pub proof fn lemma_resolve_total<T>(
    pairs: Seq<(Event, T)>,
    events: Seq<Event>,
    mouse_inside: bool,
)
    requires
        spec_has_default(pairs),
        spec_contains_default(events),
    ensures
        spec_resolve(pairs, events, mouse_inside) is Some,
    decreases events.len(),
{
    let i = choose|i: int| 0 <= i < events.len() && events[i] is Default;
    if events[0] is Default {
        assert(spec_event_eq(Event::Default, events[0]));
        lemma_lookup_congruence(pairs, Event::Default, events[0]);
    } else if !spec_skipped(events[0], mouse_inside) && spec_lookup(pairs, events[0]) is Some {
    } else {
        assert(events.drop_first()[i - 1] is Default);
        lemma_resolve_total(pairs, events.drop_first(), mouse_inside);
    }
}

/// Looking up equal events gives equal results.
pub proof fn lemma_lookup_congruence<T>(pairs: Seq<(Event, T)>, a: Event, b: Event)
    requires
        spec_event_eq(a, b),
    ensures
        spec_lookup(pairs, a) == spec_lookup(pairs, b),
    decreases pairs.len(),
{
    if pairs.len() > 0 {
        crate::event::lemma_event_eq_equivalence(pairs[0].0, a, b);
        if !spec_event_eq(pairs[0].0, a) {
            lemma_lookup_congruence(pairs.drop_first(), a, b);
        }
    }
}

/// With the pointer outside, mouse-dependent events never affect resolution,
/// wherever they stand in the active list: removing one changes nothing.
pub proof fn lemma_mouse_dependent_excluded<T>(
    pairs: Seq<(Event, T)>,
    events: Seq<Event>,
    i: int,
)
    requires
        0 <= i < events.len(),
        spec_mouse_dependent(events[i]),
    ensures
        spec_resolve(pairs, events.remove(i), false) == spec_resolve(pairs, events, false),
    decreases events.len(),
{
    if i == 0 {
        assert(events.remove(0) =~= events.drop_first());
    } else {
        assert(events.remove(i)[0] == events[0]);
        assert(events.remove(i).drop_first() =~= events.drop_first().remove(i - 1));
        lemma_mouse_dependent_excluded(pairs, events.drop_first(), i - 1);
    }
}

impl<T> Prop<T> {
    /// Looks up the entry for one event, if any.
    fn find(&self, e: &Event) -> (r: Option<usize>)
        ensures
            match r {
                Some(j) => j < self.pairs@.len()
                    && spec_lookup(self.pairs@, *e) == Some(self.pairs@[j as int].1),
                None => spec_lookup(self.pairs@, *e) is None,
            },
    {
        proof {
            assert(self.pairs@.subrange(0, self.pairs@.len() as int) =~= self.pairs@);
        }
        let mut j: usize = 0;
        while j < self.pairs.len()
            invariant
                j <= self.pairs@.len(),
                spec_lookup(self.pairs@, *e) == spec_lookup(
                    self.pairs@.subrange(j as int, self.pairs@.len() as int),
                    *e,
                ),
            decreases self.pairs@.len() - j,
        {
            let pair = &self.pairs[j];
            proof {
                assert(self.pairs@.subrange(j as int, self.pairs@.len() as int)[0]
                    == self.pairs@[j as int]);
            }
            if event_eq(&pair.0, e) {
                return Some(j);
            }
            proof {
                assert(self.pairs@.subrange(j as int, self.pairs@.len() as int).drop_first()
                    =~= self.pairs@.subrange(j + 1, self.pairs@.len() as int));
            }
            j = j + 1;
        }
        None
    }

    /// Resolves the value in effect right now: the first active event, in the
    /// caller-supplied order, that is not skipped for the pointer position
    /// and has an entry in this property.
    pub fn get(&self, events: &Vec<Event>, mouse_inside: bool) -> (r: &T)
        requires
            spec_has_default(self.pairs@),
            spec_contains_default(events@),
        ensures
            spec_resolve(self.pairs@, events@, mouse_inside) matches Some(p) && *r == p.1,
    {
        proof {
            lemma_resolve_total(self.pairs@, events@, mouse_inside);
            assert(events@.subrange(0, events@.len() as int) =~= events@);
        }
        let n = events.len();
        let mut i: usize = 0;
        loop
            invariant
                n == events@.len(),
                i < n,
                spec_resolve(self.pairs@, events@, mouse_inside) == spec_resolve(
                    self.pairs@,
                    events@.subrange(i as int, events@.len() as int),
                    mouse_inside,
                ),
                spec_resolve(self.pairs@, events@, mouse_inside) is Some,
            decreases events@.len() - i,
        {
            let e = &events[i];
            proof {
                assert(events@.subrange(i as int, events@.len() as int)[0] == events@[i as int]);
                assert(events@.subrange(i as int, events@.len() as int).drop_first()
                    =~= events@.subrange(i + 1, events@.len() as int));
            }
            if mouse_inside || !e.mouse_dependent() {
                if let Some(j) = self.find(e) {
                    let pair = &self.pairs[j];
                    return &pair.1;
                }
            }
            proof {
                if i + 1 == events@.len() {
                    assert(events@.subrange(i + 1, events@.len() as int).len() == 0);
                }
            }
            i = i + 1;
        }
    }

    /// Resolves which event decides the value right now.  Used to detect that
    /// the determining condition changed without comparing values.
    pub fn get_event(&self, events: &Vec<Event>, mouse_inside: bool) -> (r: Event)
        requires
            spec_has_default(self.pairs@),
            spec_contains_default(events@),
        ensures
            spec_resolve(self.pairs@, events@, mouse_inside) matches Some(p) && r == p.0,
            !mouse_inside ==> !spec_mouse_dependent(r),
    {
        proof {
            lemma_resolve_total(self.pairs@, events@, mouse_inside);
            assert(events@.subrange(0, events@.len() as int) =~= events@);
        }
        let n = events.len();
        let mut i: usize = 0;
        loop
            invariant
                n == events@.len(),
                i < n,
                spec_resolve(self.pairs@, events@, mouse_inside) == spec_resolve(
                    self.pairs@,
                    events@.subrange(i as int, events@.len() as int),
                    mouse_inside,
                ),
                spec_resolve(self.pairs@, events@, mouse_inside) is Some,
            decreases events@.len() - i,
        {
            let e = &events[i];
            proof {
                assert(events@.subrange(i as int, events@.len() as int)[0] == events@[i as int]);
                assert(events@.subrange(i as int, events@.len() as int).drop_first()
                    =~= events@.subrange(i + 1, events@.len() as int));
            }
            if mouse_inside || !e.mouse_dependent() {
                if self.find(e).is_some() {
                    return e.clone();
                }
            }
            proof {
                if i + 1 == events@.len() {
                    assert(events@.subrange(i + 1, events@.len() as int).len() == 0);
                }
            }
            i = i + 1;
        }
    }
}

impl<T> Prop<T> {
    /// A property holding only the default entry.
    pub fn new_default(v: T) -> (r: Self)
        ensures
            r.pairs@.len() == 1,
            r.pairs@[0].0 is Default,
            r.pairs@[0].1 == v,
            spec_has_default(r.pairs@),
    {
        let mut pairs: Vec<(Event, T)> = Vec::new();
        pairs.push((Event::Default, v));
        proof {
            assert(spec_lookup(pairs@, Event::Default) is Some);
        }
        Prop { pairs }
    }

    /// Sets the value for one event, shadowing any earlier entry for it.
    pub fn set(&mut self, e: Event, v: T)
        ensures
            final(self).pairs@ == old(self).pairs@.insert(0, (e, v)),
            forall|x: Event| #[trigger] spec_lookup(final(self).pairs@, x) == if spec_event_eq(
                x,
                e,
            ) {
                Some(v)
            } else {
                spec_lookup(old(self).pairs@, x)
            },
            spec_has_default(old(self).pairs@) ==> spec_has_default(final(self).pairs@),
    {
        self.pairs.insert(0, (e, v));
        proof {
            assert(self.pairs@[0] == (e, v));
            assert(self.pairs@.drop_first() =~= old(self).pairs@);
            assert forall|x: Event| #[trigger] spec_lookup(self.pairs@, x) == if spec_event_eq(
                x,
                e,
            ) {
                Some(v)
            } else {
                spec_lookup(old(self).pairs@, x)
            } by {
                crate::event::lemma_event_eq_equivalence(e, x, x);
                if spec_event_eq(self.pairs@[0].0, x) {
                } else {
                }
            }
            if spec_has_default(old(self).pairs@) {
                assert(spec_lookup(self.pairs@, Event::Default) is Some);
            }
        }
    }
}


/// The resolved value of a property: the value of the first matching
/// entry.
pub open spec fn spec_rv<T>(p: Prop<T>, events: Seq<Event>, mouse_inside: bool) -> T
    recommends
        spec_resolve(p.pairs@, events, mouse_inside) is Some,
{
    spec_resolve(p.pairs@, events, mouse_inside)->Some_0.1
}

/// A found entry's value is one of the property's stored values.
pub proof fn lemma_lookup_value_member<T>(pairs: Seq<(Event, T)>, e: Event)
    ensures
        spec_lookup(pairs, e) matches Some(v) ==> exists|j: int|
            0 <= j < pairs.len() && #[trigger] pairs[j].1 == v,
    decreases pairs.len(),
{
    if pairs.len() > 0 {
        if spec_event_eq(pairs[0].0, e) {
            assert(pairs[0].1 == pairs[0].1);
        } else {
            lemma_lookup_value_member(pairs.drop_first(), e);
            if spec_lookup(pairs.drop_first(), e) is Some {
                let v = spec_lookup(pairs.drop_first(), e)->Some_0;
                let j = choose|j: int|
                    0 <= j < pairs.drop_first().len() && #[trigger] pairs.drop_first()[j].1 == v;
                assert(pairs[j + 1].1 == v);
            }
        }
    }
}

/// A resolved value is one of the property's stored values.
pub proof fn lemma_resolve_value_member<T>(pairs: Seq<(Event, T)>, events: Seq<Event>, m: bool)
    ensures
        spec_resolve(pairs, events, m) matches Some(p) ==> exists|j: int|
            0 <= j < pairs.len() && #[trigger] pairs[j].1 == p.1,
    decreases events.len(),
{
    if events.len() > 0 {
        if !spec_skipped(events[0], m) && spec_lookup(pairs, events[0]) is Some {
            lemma_lookup_value_member(pairs, events[0]);
        } else {
            lemma_resolve_value_member(pairs, events.drop_first(), m);
        }
    }
}

/// The static, config-derived properties of one widget: its palette,
/// thresholds, font, command, action, border factor and refresh interval.
/// Threshold values are in thousandths; the border factor is in
/// thousandths of the bar height; the interval is in milliseconds.
pub struct WidgetProps {
    pub foreground: Prop<crate::draw::Drawable>,
    pub background: Prop<crate::draw::Drawable>,
    pub black: Prop<crate::draw::Drawable>,
    pub red: Prop<crate::draw::Drawable>,
    pub green: Prop<crate::draw::Drawable>,
    pub yellow: Prop<crate::draw::Drawable>,
    pub blue: Prop<crate::draw::Drawable>,
    pub magenta: Prop<crate::draw::Drawable>,
    pub cyan: Prop<crate::draw::Drawable>,
    pub white: Prop<crate::draw::Drawable>,
    pub bright_black: Prop<crate::draw::Drawable>,
    pub bright_red: Prop<crate::draw::Drawable>,
    pub bright_green: Prop<crate::draw::Drawable>,
    pub bright_yellow: Prop<crate::draw::Drawable>,
    pub bright_blue: Prop<crate::draw::Drawable>,
    pub bright_magenta: Prop<crate::draw::Drawable>,
    pub bright_cyan: Prop<crate::draw::Drawable>,
    pub bright_white: Prop<crate::draw::Drawable>,
    pub warn: Prop<i64>,
    pub critical: Prop<i64>,
    pub dim: Prop<i64>,
    pub font: Prop<String>,
    pub command: Prop<crate::command::Command>,
    pub action: Prop<crate::command::Command>,
    pub border_factor: Prop<u32>,
    pub interval: Prop<u64>,
}

/// The resolved snapshot of a widget's comparable properties at one
/// tick.  The command and action are deliberately left out: command values
/// are not meaningfully comparable, so command-driven dirtiness is tracked
/// by output comparison instead.
#[derive(Debug)]
pub struct WidgetPropsCurrent {
    pub foreground: crate::draw::Drawable,
    pub background: crate::draw::Drawable,
    pub black: crate::draw::Drawable,
    pub red: crate::draw::Drawable,
    pub green: crate::draw::Drawable,
    pub yellow: crate::draw::Drawable,
    pub blue: crate::draw::Drawable,
    pub magenta: crate::draw::Drawable,
    pub cyan: crate::draw::Drawable,
    pub white: crate::draw::Drawable,
    pub bright_black: crate::draw::Drawable,
    pub bright_red: crate::draw::Drawable,
    pub bright_green: crate::draw::Drawable,
    pub bright_yellow: crate::draw::Drawable,
    pub bright_blue: crate::draw::Drawable,
    pub bright_magenta: crate::draw::Drawable,
    pub bright_cyan: crate::draw::Drawable,
    pub bright_white: crate::draw::Drawable,
    pub warn: i64,
    pub critical: i64,
    pub dim: i64,
    pub font: String,
    pub border_factor: u32,
    pub interval: u64,
}

/// A well-formed widget property set: every property has its default
/// entry.
pub open spec fn spec_widget_props_wf(p: WidgetProps) -> bool {
    &&& spec_has_default(p.foreground.pairs@)
    &&& spec_has_default(p.background.pairs@)
    &&& spec_has_default(p.black.pairs@)
    &&& spec_has_default(p.red.pairs@)
    &&& spec_has_default(p.green.pairs@)
    &&& spec_has_default(p.yellow.pairs@)
    &&& spec_has_default(p.blue.pairs@)
    &&& spec_has_default(p.magenta.pairs@)
    &&& spec_has_default(p.cyan.pairs@)
    &&& spec_has_default(p.white.pairs@)
    &&& spec_has_default(p.bright_black.pairs@)
    &&& spec_has_default(p.bright_red.pairs@)
    &&& spec_has_default(p.bright_green.pairs@)
    &&& spec_has_default(p.bright_yellow.pairs@)
    &&& spec_has_default(p.bright_blue.pairs@)
    &&& spec_has_default(p.bright_magenta.pairs@)
    &&& spec_has_default(p.bright_cyan.pairs@)
    &&& spec_has_default(p.bright_white.pairs@)
    &&& spec_has_default(p.warn.pairs@)
    &&& spec_has_default(p.critical.pairs@)
    &&& spec_has_default(p.dim.pairs@)
    &&& spec_has_default(p.font.pairs@)
    &&& spec_has_default(p.command.pairs@)
    &&& spec_has_default(p.action.pairs@)
    &&& spec_has_default(p.border_factor.pairs@)
    &&& spec_has_default(p.interval.pairs@)
}

/// Equality of two snapshots: every comparable field agrees.
pub open spec fn spec_current_eq(a: WidgetPropsCurrent, b: WidgetPropsCurrent) -> bool {
    &&& a.foreground@ == b.foreground@
    &&& a.background@ == b.background@
    &&& a.black@ == b.black@
    &&& a.red@ == b.red@
    &&& a.green@ == b.green@
    &&& a.yellow@ == b.yellow@
    &&& a.blue@ == b.blue@
    &&& a.magenta@ == b.magenta@
    &&& a.cyan@ == b.cyan@
    &&& a.white@ == b.white@
    &&& a.bright_black@ == b.bright_black@
    &&& a.bright_red@ == b.bright_red@
    &&& a.bright_green@ == b.bright_green@
    &&& a.bright_yellow@ == b.bright_yellow@
    &&& a.bright_blue@ == b.bright_blue@
    &&& a.bright_magenta@ == b.bright_magenta@
    &&& a.bright_cyan@ == b.bright_cyan@
    &&& a.bright_white@ == b.bright_white@
    &&& a.warn == b.warn
    &&& a.critical == b.critical
    &&& a.dim == b.dim
    &&& a.font@ == b.font@
    &&& a.border_factor == b.border_factor
    &&& a.interval == b.interval
}

impl WidgetProps {
    /// Resolves every comparable property against the active events and
    /// pointer position into one snapshot.
    pub fn as_current(&self, e: &Vec<Event>, m: bool) -> (c: WidgetPropsCurrent)
        requires
            spec_widget_props_wf(*self),
            spec_contains_default(e@),
        ensures
            c.foreground@ == spec_rv(self.foreground, e@, m)@,
            c.background@ == spec_rv(self.background, e@, m)@,
            c.black@ == spec_rv(self.black, e@, m)@,
            c.red@ == spec_rv(self.red, e@, m)@,
            c.green@ == spec_rv(self.green, e@, m)@,
            c.yellow@ == spec_rv(self.yellow, e@, m)@,
            c.blue@ == spec_rv(self.blue, e@, m)@,
            c.magenta@ == spec_rv(self.magenta, e@, m)@,
            c.cyan@ == spec_rv(self.cyan, e@, m)@,
            c.white@ == spec_rv(self.white, e@, m)@,
            c.bright_black@ == spec_rv(self.bright_black, e@, m)@,
            c.bright_red@ == spec_rv(self.bright_red, e@, m)@,
            c.bright_green@ == spec_rv(self.bright_green, e@, m)@,
            c.bright_yellow@ == spec_rv(self.bright_yellow, e@, m)@,
            c.bright_blue@ == spec_rv(self.bright_blue, e@, m)@,
            c.bright_magenta@ == spec_rv(self.bright_magenta, e@, m)@,
            c.bright_cyan@ == spec_rv(self.bright_cyan, e@, m)@,
            c.bright_white@ == spec_rv(self.bright_white, e@, m)@,
            c.warn == spec_rv(self.warn, e@, m),
            c.critical == spec_rv(self.critical, e@, m),
            c.dim == spec_rv(self.dim, e@, m),
            c.font@ == spec_rv(self.font, e@, m)@,
            c.border_factor == spec_rv(self.border_factor, e@, m),
            c.interval == spec_rv(self.interval, e@, m),
    {
        WidgetPropsCurrent {
            foreground: self.foreground.get(e, m).clone(),
            background: self.background.get(e, m).clone(),
            black: self.black.get(e, m).clone(),
            red: self.red.get(e, m).clone(),
            green: self.green.get(e, m).clone(),
            yellow: self.yellow.get(e, m).clone(),
            blue: self.blue.get(e, m).clone(),
            magenta: self.magenta.get(e, m).clone(),
            cyan: self.cyan.get(e, m).clone(),
            white: self.white.get(e, m).clone(),
            bright_black: self.bright_black.get(e, m).clone(),
            bright_red: self.bright_red.get(e, m).clone(),
            bright_green: self.bright_green.get(e, m).clone(),
            bright_yellow: self.bright_yellow.get(e, m).clone(),
            bright_blue: self.bright_blue.get(e, m).clone(),
            bright_magenta: self.bright_magenta.get(e, m).clone(),
            bright_cyan: self.bright_cyan.get(e, m).clone(),
            bright_white: self.bright_white.get(e, m).clone(),
            warn: *self.warn.get(e, m),
            critical: *self.critical.get(e, m),
            dim: *self.dim.get(e, m),
            font: self.font.get(e, m).clone(),
            border_factor: *self.border_factor.get(e, m),
            interval: *self.interval.get(e, m),
        }
    }
}

/// Compares two snapshots field by field.
pub fn current_eq(a: &WidgetPropsCurrent, b: &WidgetPropsCurrent) -> (r: bool)
    ensures
        r == spec_current_eq(*a, *b),
{
    crate::draw::drawable_eq(&a.foreground, &b.foreground)
        && crate::draw::drawable_eq(&a.background, &b.background)
        && crate::draw::drawable_eq(&a.black, &b.black)
        && crate::draw::drawable_eq(&a.red, &b.red)
        && crate::draw::drawable_eq(&a.green, &b.green)
        && crate::draw::drawable_eq(&a.yellow, &b.yellow)
        && crate::draw::drawable_eq(&a.blue, &b.blue)
        && crate::draw::drawable_eq(&a.magenta, &b.magenta)
        && crate::draw::drawable_eq(&a.cyan, &b.cyan)
        && crate::draw::drawable_eq(&a.white, &b.white)
        && crate::draw::drawable_eq(&a.bright_black, &b.bright_black)
        && crate::draw::drawable_eq(&a.bright_red, &b.bright_red)
        && crate::draw::drawable_eq(&a.bright_green, &b.bright_green)
        && crate::draw::drawable_eq(&a.bright_yellow, &b.bright_yellow)
        && crate::draw::drawable_eq(&a.bright_blue, &b.bright_blue)
        && crate::draw::drawable_eq(&a.bright_magenta, &b.bright_magenta)
        && crate::draw::drawable_eq(&a.bright_cyan, &b.bright_cyan)
        && crate::draw::drawable_eq(&a.bright_white, &b.bright_white)
        && a.warn == b.warn
        && a.critical == b.critical
        && a.dim == b.dim
        && crate::event::string_eq(&a.font, &b.font)
        && a.border_factor == b.border_factor
        && a.interval == b.interval
}

/// The bar-level properties: anchor, size, offsets and window-manager
/// flags.  The screen-width fraction is in thousandths of the screen.
pub struct BarProps {
    pub alignment: Prop<crate::window::Direction>,
    pub height: Prop<u16>,
    pub screenwidth: Prop<u32>,
    pub xoff: Prop<i16>,
    pub yoff: Prop<i16>,
    pub solid: Prop<bool>,
    pub above: Prop<bool>,
    pub below: Prop<bool>,
    pub visible: Prop<bool>,
}

/// The resolved snapshot of the bar-level properties at one tick.
#[derive(Clone, Copy, Debug, PartialEq, Eq, Structural)]
pub struct BarPropsCurrent {
    pub alignment: crate::window::Direction,
    pub height: u16,
    pub screenwidth: u32,
    pub xoff: i16,
    pub yoff: i16,
    pub solid: bool,
    pub above: bool,
    pub below: bool,
    pub visible: bool,
}

/// A well-formed bar property set: every property has its default entry,
/// and every configured alignment uses the three meaningful anchor
/// values.
pub open spec fn spec_bar_props_wf(p: BarProps) -> bool {
    &&& spec_has_default(p.alignment.pairs@)
    &&& spec_has_default(p.height.pairs@)
    &&& spec_has_default(p.screenwidth.pairs@)
    &&& spec_has_default(p.xoff.pairs@)
    &&& spec_has_default(p.yoff.pairs@)
    &&& spec_has_default(p.solid.pairs@)
    &&& spec_has_default(p.above.pairs@)
    &&& spec_has_default(p.below.pairs@)
    &&& spec_has_default(p.visible.pairs@)
    &&& forall|j: int|
        0 <= j < p.alignment.pairs@.len() ==> crate::window::spec_dir_ok(
            #[trigger] p.alignment.pairs@[j].1,
        )
}

impl BarProps {
    /// Resolves every bar-level property against the active events and
    /// pointer position into one snapshot.
    pub fn as_current(&self, e: &Vec<Event>, m: bool) -> (c: BarPropsCurrent)
        requires
            spec_bar_props_wf(*self),
            spec_contains_default(e@),
        ensures
            c.alignment == spec_rv(self.alignment, e@, m),
            c.height == spec_rv(self.height, e@, m),
            c.screenwidth == spec_rv(self.screenwidth, e@, m),
            c.xoff == spec_rv(self.xoff, e@, m),
            c.yoff == spec_rv(self.yoff, e@, m),
            c.solid == spec_rv(self.solid, e@, m),
            c.above == spec_rv(self.above, e@, m),
            c.below == spec_rv(self.below, e@, m),
            c.visible == spec_rv(self.visible, e@, m),
            crate::window::spec_dir_ok(c.alignment),
    {
        proof {
            lemma_resolve_value_member(self.alignment.pairs@, e@, m);
            lemma_resolve_total(self.alignment.pairs@, e@, m);
        }
        BarPropsCurrent {
            alignment: *self.alignment.get(e, m),
            height: *self.height.get(e, m),
            screenwidth: *self.screenwidth.get(e, m),
            xoff: *self.xoff.get(e, m),
            yoff: *self.yoff.get(e, m),
            solid: *self.solid.get(e, m),
            above: *self.above.get(e, m),
            below: *self.below.get(e, m),
            visible: *self.visible.get(e, m),
        }
    }
}

} // verus!
