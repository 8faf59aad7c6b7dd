//! The bar: per-widget refresh with width hysteresis, bar-level layout of
//! the two widget flows, and the damage engine that decides what must be
//! repainted each tick.
//!
//! The core computes; the driver performs.  Each call to `refresh` returns
//! the draw commands and the window reconfiguration, if any, that the
//! driver must carry out for this tick.

use vstd::prelude::*;
use crate::command::CommandSharedState;
use crate::draw::{Drawable, DrawableView};
use crate::event::{Event, EventTrait, event_eq, spec_event_eq};
use crate::props::{
    BarProps, BarPropsCurrent, WidgetProps, WidgetPropsCurrent, current_eq, spec_bar_props_wf,
    spec_contains_default, spec_current_eq, spec_rv, spec_widget_props_wf,
};
use crate::window::{WindowGeometry, spec_dir_ok, spec_has_point, spec_has_point_cropped};

verus! {

/// Measures rendered text: the pixel width of a string in a font at a
/// height.  The driver implements this with its font engine; what it
/// returns depends on the fonts of the machine, so nothing is assumed of
/// it.
pub trait TextMeasure {
    fn measure(&mut self, text: &String, font: &String, height: u16) -> u16;
}

/// One draw the driver must perform: a background fill, or one widget's
/// cell drawn at its flow offset.
#[derive(Debug)]
pub enum DrawCmd {
    Rect { x: i64, w: i64, h: u16, bg: Drawable },
    Widget { left_flow: bool, index: usize, offset: i64 },
}

/// What one tick asks of the driver: a window reconfiguration when the
/// geometry genuinely changed, whether everything must be repainted, and
/// the draws to perform.
#[derive(Debug)]
pub struct RefreshOutput {
    pub configure: Option<WindowGeometry>,
    pub global_redraw: bool,
    pub draws: Vec<DrawCmd>,
}

/// The mutable per-widget state: the static properties, the last resolved
/// snapshot, the committed width band, command bookkeeping and draw
/// bookkeeping.
pub struct Widget {
    pub props: WidgetProps,
    pub current: WidgetPropsCurrent,
    pub width_min: u16,
    pub width_max: u16,
    pub last_time_updated: u64,
    pub last_event_updated: Event,
    pub x: i64,
    pub last_x: i64,
    pub cmd_out: String,
    pub mouse_over: bool,
    pub needs_redraw: bool,
}

/// The committed band after one width measurement: a measurement inside
/// the band commits nothing; one outside commits a new band around the
/// measurement, two average character widths wide on each side.
pub open spec fn spec_commit_band(
    wmin: u16,
    wmax: u16,
    width: u16,
    acw: u16,
) -> (u16, u16) {
    if wmin <= width <= wmax {
        (wmin, wmax)
    } else {
        (
            if width >= 2 * acw {
                (width - 2 * acw) as u16
            } else {
                0u16
            },
            if width + 2 * acw <= u16::MAX {
                (width + 2 * acw) as u16
            } else {
                u16::MAX
            },
        )
    }
}

/// The average character width of a rendering: the measured width spread
/// over the text's bytes, at least one.
pub open spec fn spec_avg_char_width(width: u16, len: nat) -> u16 {
    if len == 0 {
        1u16
    } else if width as nat / len == 0 {
        1u16
    } else {
        (width as nat / len) as u16
    }
}

impl Widget {
    /// A fresh widget over its properties, not yet measured or drawn.
    pub fn new(props: WidgetProps, current: WidgetPropsCurrent) -> (w: Widget)
        ensures
            w.props == props,
            w.current == current,
            w.width_min == 0,
            w.width_max == 0,
            w.last_time_updated == 0,
            w.last_event_updated is Default,
            w.x == 0,
            w.last_x == 0,
            w.cmd_out@ == Seq::<char>::empty(),
            w.mouse_over == false,
            w.needs_redraw == false,
    {
        Widget {
            props,
            current,
            width_min: 0,
            width_max: 0,
            last_time_updated: 0,
            last_event_updated: Event::Default,
            x: 0,
            last_x: 0,
            cmd_out: String::new(),
            mouse_over: false,
            needs_redraw: false,
        }
    }

    /// Commits a freshly measured width against the hysteresis band: only
    /// a measurement outside the committed band moves it.  Returns how
    /// much horizontal space the commit freed (positive) or consumed
    /// (negative).
    pub fn commit_width(&mut self, width: u16) -> (delta: i32)
        ensures
            ({
                let acw = spec_avg_char_width(width, old(self).cmd_out@.len());
                let band = spec_commit_band(
                    old(self).width_min,
                    old(self).width_max,
                    width,
                    acw,
                );
                &&& final(self).width_min == band.0
                &&& final(self).width_max == band.1
                &&& delta == old(self).width_max - band.1
            }),
            old(self).width_min <= width <= old(self).width_max ==> *final(self) == *old(self)
                && delta == 0,
            *final(self) == (Widget {
                width_min: final(self).width_min,
                width_max: final(self).width_max,
                ..*old(self)
            }),
    {
        let len_chars = self.cmd_out.as_str().unicode_len();
        let acw: u16 = if len_chars == 0 {
            1
        } else {
            let a = (width as u64) / (len_chars as u64);
            if a == 0 {
                1
            } else {
                a as u16
            }
        };
        if width > self.width_max || width < self.width_min {
            let old_max = self.width_max;
            let acw2 = 2 * (acw as u32);
            self.width_min = if (width as u32) >= acw2 {
                ((width as u32) - acw2) as u16
            } else {
                0
            };
            self.width_max = if (width as u32) + acw2 <= 0xFFFF {
                ((width as u32) + acw2) as u16
            } else {
                u16::MAX
            };
            (old_max as i32) - (self.width_max as i32)
        } else {
            0
        }
    }
}

/// A sequence of measurements that all stay within a widget's committed
/// band commits nothing: the band, and so the layout, never moves, however
/// often the raw measurement changes.
pub proof fn lemma_hysteresis_quiet(wmin: u16, wmax: u16, widths: Seq<u16>, acws: Seq<u16>)
    requires
        widths.len() == acws.len(),
        forall|i: int| 0 <= i < widths.len() ==> wmin <= #[trigger] widths[i] <= wmax,
    ensures
        forall|i: int|
            0 <= i < widths.len() ==> #[trigger] spec_commit_band(
                wmin,
                wmax,
                widths[i],
                acws[i],
            ) == (wmin, wmax),
{
}

/// The total committed width of a widget flow.
pub open spec fn spec_flow_width(ws: Seq<Widget>) -> int
    decreases ws.len(),
{
    if ws.len() == 0 {
        0
    } else {
        ws[0].width_max + spec_flow_width(ws.drop_first())
    }
}

/// A number clamped into the unsigned 16-bit range.
pub open spec fn spec_sat_u16(x: int) -> u16 {
    if x > u16::MAX {
        u16::MAX
    } else if x < 0 {
        0u16
    } else {
        x as u16
    }
}

/// Every widget of a flow has well-formed properties.
pub open spec fn spec_widgets_wf(ws: Seq<Widget>) -> bool {
    forall|k: int| 0 <= k < ws.len() ==> spec_widget_props_wf((#[trigger] ws[k]).props)
}

/// The whole bar state: the two widget flows, the bar-level properties
/// and their snapshot, the committed and hover-test geometries, the
/// previous frame's occupied extents, and the shared command registry.
pub struct Bar {
    pub widgets_left: Vec<Widget>,
    pub widgets_right: Vec<Widget>,
    pub props: BarProps,
    pub default_bg: Drawable,
    pub current: BarPropsCurrent,
    pub offset: i64,
    pub middle_left: i64,
    pub middle_right: i64,
    pub geometry: WindowGeometry,
    pub fake_geometry: WindowGeometry,
    pub cmdstate: CommandSharedState,
}

/// A well-formed bar: its own and every widget's properties are
/// well-formed, and the flows are small enough for pixel sums to stay in
/// range.
pub open spec fn spec_bar_wf(b: Bar) -> bool {
    &&& spec_bar_props_wf(b.props)
    &&& spec_widgets_wf(b.widgets_left@)
    &&& spec_widgets_wf(b.widgets_right@)
    &&& b.widgets_left@.len() <= 0x10000
    &&& b.widgets_right@.len() <= 0x10000
    &&& spec_positions_ok(b.widgets_left@)
    &&& spec_positions_ok(b.widgets_right@)
    &&& 0 <= b.offset < 0x1_0000_0000_0000
    &&& 0 <= b.middle_left < 0x1_0000_0000_0000
    &&& 0 <= b.middle_right < 0x1_0000_0000_0000
}

/// Every widget's cached positions stay within the pixel range layout
/// arithmetic assumes.
pub open spec fn spec_positions_ok(ws: Seq<Widget>) -> bool {
    forall|k: int|
        0 <= k < ws.len() ==> 0 <= (#[trigger] ws[k]).x < 0x1_0000_0000 && 0 <= ws[k].last_x
            < 0x1_0000_0000_0000
}

impl Widget {
    /// One widget's tick: hit-test result in hand, resolve the snapshot,
    /// decide whether to re-run the command, run the action, and re-layout
    /// on change, committing the measured width against the hysteresis
    /// band.  Returns how much horizontal space the widget freed or
    /// consumed.
    pub fn refresh_one<M: TextMeasure>(
        &mut self,
        cmdstate: &mut CommandSharedState,
        events: &Vec<Event>,
        force: bool,
        bar_redraw: bool,
        width_change_in: i64,
        mouse_inside: bool,
        height: u16,
        cursor: i64,
        measurer: &mut M,
    ) -> (delta: i32)
        requires
            spec_widget_props_wf(old(self).props),
            spec_contains_default(events@),
            0 <= cursor < 0x1_0000_0000,
        ensures
            final(self).props == old(self).props,
            spec_current_eq(
                final(self).current,
                spec_resolved_current(old(self).props, events@, mouse_inside),
            ),
            final(self).x == cursor,
            final(self).last_x == old(self).last_x,
            final(self).mouse_over == mouse_inside,
            delta == old(self).width_max - final(self).width_max,
            !final(self).needs_redraw ==> final(self).width_max == old(self).width_max
                && final(self).width_min == old(self).width_min && delta == 0,
            final(self).cmd_out@ != old(self).cmd_out@ ==> final(self).needs_redraw,
            old(self).width_min <= old(self).width_max ==> exists|meas: u16|
                (final(self).width_min, final(self).width_max) == spec_commit_band(
                    old(self).width_min,
                    old(self).width_max,
                    meas,
                    spec_avg_char_width(meas, final(self).cmd_out@.len()),
                ),
            crate::command::spec_pure_output(
                spec_rv(old(self).props.command, events@, mouse_inside),
            ) matches Some(o) ==> ({
                let gate = spec_rerun_gate(
                    *old(self),
                    events@,
                    mouse_inside,
                    old(cmdstate).now_ms,
                    force,
                );
                &&& final(self).cmd_out@ == if gate {
                    o
                } else {
                    old(self).cmd_out@
                }
                &&& final(self).needs_redraw == (spec_snapshot_dirty(
                    *old(self),
                    spec_resolved_current(old(self).props, events@, mouse_inside),
                    force,
                    bar_redraw,
                    width_change_in as int,
                ) || (gate && o != old(self).cmd_out@))
                &&& final(self).last_time_updated == if gate {
                    old(cmdstate).now_ms
                } else {
                    old(self).last_time_updated
                }
                &&& final(self).last_event_updated == if gate {
                    crate::props::spec_resolve(
                        old(self).props.command.pairs@,
                        events@,
                        mouse_inside,
                    )->Some_0.0
                } else {
                    old(self).last_event_updated
                }
            }),
            spec_widget_quiet(*old(self), events@, mouse_inside) && !force && !bar_redraw
                && width_change_in == 0 ==> !final(self).needs_redraw && final(self).cmd_out@
                == old(self).cmd_out@,
    {
        let resolved = self.props.as_current(events, mouse_inside);
        let changed = !current_eq(&resolved, &self.current);
        if changed {
            self.current = resolved;
            self.needs_redraw = true;
        } else {
            self.current = resolved;
            self.needs_redraw = bar_redraw || force || width_change_in != 0;
        }
        let now = cmdstate.now_ms;
        let cmd_event = self.props.command.get_event(events, mouse_inside);
        let rerun = force || (now >= self.last_time_updated && now - self.last_time_updated
            > self.current.interval) || !event_eq(&self.last_event_updated, &cmd_event) || {
            let cmd = self.props.command.get(events, mouse_inside);
            proof {
                if crate::command::spec_pure_output(
                    spec_rv(old(self).props.command, events@, mouse_inside),
                ) is Some {
                    assert(!(cmd is Pipe) && !(cmd is AlsaGet));
                }
            }
            cmd.updated(cmdstate)
        };
        if rerun {
            let new_out = {
                let cmd = self.props.command.get(events, mouse_inside);
                cmd.execute(cmdstate)
            };
            self.last_time_updated = now;
            self.last_event_updated = cmd_event;
            if !crate::event::string_eq(&new_out, &self.cmd_out) {
                self.needs_redraw = true;
                self.cmd_out = new_out;
            }
        }
        {
            let action = self.props.action.get(events, mouse_inside);
            let _ = action.execute(cmdstate);
        }
        let ghost mut wit: u16 = 0;
        let delta: i32 = if self.needs_redraw {
            let bf = self.current.border_factor;
            proof {
                assert((height as u64) * (bf as u64) <= 65535u64 * 0xFFFF_FFFFu64)
                    by (nonlinear_arith)
                    requires
                        height as u64 <= 65535u64,
                        bf as u64 <= 0xFFFF_FFFFu64,
                ;
            }
            let raw = ((height as u64) * (bf as u64) + 999) / 1000;
            let fgheight: u16 = if raw > 0xFFFF {
                0xFFFF
            } else {
                raw as u16
            };
            let width = measurer.measure(&self.cmd_out, &self.current.font, fgheight);
            proof {
                wit = width;
            }
            self.commit_width(width)
        } else {
            proof {
                wit = old(self).width_min;
            }
            0
        };
        self.x = cursor;
        self.mouse_over = mouse_inside;
        proof {
            if old(self).width_min <= old(self).width_max {
                assert((self.width_min, self.width_max) == spec_commit_band(
                    old(self).width_min,
                    old(self).width_max,
                    wit,
                    spec_avg_char_width(wit, self.cmd_out@.len()),
                ));
            }
        }
        delta
    }
}

/// Whether a widget's command is due for a re-run this tick, as far as
/// the configuration alone decides it: the force flag, an elapsed
/// interval, or a changed triggering event.  A pipe or mixer command can
/// also become due through its change signal; configuration-pure
/// commands have none.
pub open spec fn spec_rerun_gate(
    w: Widget,
    events: Seq<Event>,
    m: bool,
    now: u64,
    force: bool,
) -> bool {
    ||| force
    ||| (now >= w.last_time_updated && now - w.last_time_updated > spec_rv(
        w.props.interval,
        events,
        m,
    ))
    ||| !spec_event_eq(
        w.last_event_updated,
        crate::props::spec_resolve(w.props.command.pairs@, events, m)->Some_0.0,
    )
}

/// The dirtiness the snapshot and layout shift alone decide, before the
/// command output is compared: a changed snapshot always marks the
/// widget; an unchanged one inherits the bar-level, force and
/// layout-shift flags.
pub open spec fn spec_snapshot_dirty(
    w: Widget,
    resolved: WidgetPropsCurrent,
    force: bool,
    bar_redraw: bool,
    width_change: int,
) -> bool {
    if !spec_current_eq(resolved, w.current) {
        true
    } else {
        bar_redraw || force || width_change != 0
    }
}

/// The snapshot a widget's properties resolve to.
pub open spec fn spec_resolved_current(
    p: WidgetProps,
    events: Seq<Event>,
    m: bool,
) -> WidgetPropsCurrent
    recommends
        spec_widget_props_wf(p),
        spec_contains_default(events),
{
    WidgetPropsCurrent {
        foreground: spec_rv(p.foreground, events, m),
        background: spec_rv(p.background, events, m),
        black: spec_rv(p.black, events, m),
        red: spec_rv(p.red, events, m),
        green: spec_rv(p.green, events, m),
        yellow: spec_rv(p.yellow, events, m),
        blue: spec_rv(p.blue, events, m),
        magenta: spec_rv(p.magenta, events, m),
        cyan: spec_rv(p.cyan, events, m),
        white: spec_rv(p.white, events, m),
        bright_black: spec_rv(p.bright_black, events, m),
        bright_red: spec_rv(p.bright_red, events, m),
        bright_green: spec_rv(p.bright_green, events, m),
        bright_yellow: spec_rv(p.bright_yellow, events, m),
        bright_blue: spec_rv(p.bright_blue, events, m),
        bright_magenta: spec_rv(p.bright_magenta, events, m),
        bright_cyan: spec_rv(p.bright_cyan, events, m),
        bright_white: spec_rv(p.bright_white, events, m),
        warn: spec_rv(p.warn, events, m),
        critical: spec_rv(p.critical, events, m),
        dim: spec_rv(p.dim, events, m),
        font: spec_rv(p.font, events, m),
        border_factor: spec_rv(p.border_factor, events, m),
        interval: spec_rv(p.interval, events, m),
    }
}

/// A widget with nothing to show anew on a tick: its resolved snapshot
/// equals the stored one, and its resolved command's output is fixed by
/// the configuration and equals the cached output.  Such a widget, on a
/// tick without force, bar-level change or layout shift, is not redrawn.
pub open spec fn spec_widget_quiet(w: Widget, events: Seq<Event>, m: bool) -> bool {
    &&& spec_current_eq(w.current, spec_resolved_current(w.props, events, m))
    &&& crate::command::spec_pure_output(
        spec_rv(w.props.command, events, m),
    ) == Some(w.cmd_out@)
}

impl Bar {
    /// A bar over its configured properties and widgets, with nothing
    /// measured, drawn or sampled yet.
    pub fn new(
        props: BarProps,
        widgets_left: Vec<Widget>,
        widgets_right: Vec<Widget>,
        default_bg: Drawable,
        current: BarPropsCurrent,
        cmdstate: CommandSharedState,
    ) -> (b: Bar)
        requires
            spec_bar_props_wf(props),
            spec_widgets_wf(widgets_left@),
            spec_widgets_wf(widgets_right@),
            widgets_left@.len() <= 0x10000,
            widgets_right@.len() <= 0x10000,
            spec_positions_ok(widgets_left@),
            spec_positions_ok(widgets_right@),
        ensures
            spec_bar_wf(b),
            b.props == props,
            b.widgets_left == widgets_left,
            b.widgets_right == widgets_right,
            b.current == current,
            b.geometry.w == 0 && b.geometry.h == 0,
            b.cmdstate == cmdstate,
    {
        Bar {
            widgets_left,
            widgets_right,
            props,
            default_bg,
            current,
            offset: 0,
            middle_left: 10000,
            middle_right: 0,
            geometry: WindowGeometry::new(),
            fake_geometry: WindowGeometry::new(),
            cmdstate,
        }
    }

    /// Refreshes one widget flow: hit-tests, resolves and re-runs each
    /// widget in order, advancing the layout cursor by each widget's
    /// committed width.  Returns the flow's total committed width.
    pub fn refresh_widgets<M: TextMeasure>(
        &mut self,
        left_flow: bool,
        events: &Vec<Event>,
        force: bool,
        bar_redraw: bool,
        mx: i16,
        my: i16,
        scrw: u16,
        scrh: u16,
        measurer: &mut M,
    ) -> (r: i64)
        requires
            spec_bar_wf(*old(self)),
            spec_contains_default(events@),
        ensures
            spec_bar_wf(*final(self)),
            final(self).props == old(self).props,
            final(self).current == old(self).current,
            final(self).geometry == old(self).geometry,
            final(self).fake_geometry == old(self).fake_geometry,
            final(self).offset == old(self).offset,
            final(self).middle_left == old(self).middle_left,
            final(self).middle_right == old(self).middle_right,
            final(self).default_bg@ == old(self).default_bg@,
            left_flow ==> final(self).widgets_right == old(self).widgets_right
                && spec_flow_step(
                old(self).widgets_left@,
                final(self).widgets_left@,
                r as int,
                *old(self),
                events@,
                force,
                bar_redraw,
                mx,
                my,
                scrw,
                scrh,
            ),
            !left_flow ==> final(self).widgets_left == old(self).widgets_left
                && spec_flow_step(
                old(self).widgets_right@,
                final(self).widgets_right@,
                r as int,
                *old(self),
                events@,
                force,
                bar_redraw,
                mx,
                my,
                scrw,
                scrh,
            ),
            0 <= r <= 0xFFFF_0000,
    {
        let height = self.current.height;
        let fake = self.fake_geometry;
        if left_flow {
            refresh_flow(
                &mut self.widgets_left,
                &mut self.cmdstate,
                fake,
                height,
                events,
                force,
                bar_redraw,
                mx,
                my,
                scrw,
                scrh,
                measurer,
            )
        } else {
            refresh_flow(
                &mut self.widgets_right,
                &mut self.cmdstate,
                fake,
                height,
                events,
                force,
                bar_redraw,
                mx,
                my,
                scrw,
                scrh,
                measurer,
            )
        }
    }
}

/// How one refresh pass relates a flow's widgets before and after it, and
/// the width it reports: the properties and draw positions persist, the
/// width is the flow's committed total, and a wholly quiet flow on a calm
/// tick ends with nothing marked for redraw and no width moved.
pub open spec fn spec_flow_step(
    ws0: Seq<Widget>,
    ws1: Seq<Widget>,
    r: int,
    b0: Bar,
    events: Seq<Event>,
    force: bool,
    bar_redraw: bool,
    mx: i16,
    my: i16,
    scrw: u16,
    scrh: u16,
) -> bool {
    &&& ws1.len() == ws0.len()
    &&& forall|k: int|
        0 <= k < ws0.len() ==> (#[trigger] ws1[k]).props == ws0[k].props && ws1[k].last_x
            == ws0[k].last_x
    &&& r == spec_flow_width(ws1)
    &&& forall|k: int|
        0 <= k < ws0.len() ==> {
            let m = spec_has_point_cropped(
                b0.fake_geometry,
                mx,
                my,
                scrw,
                scrh,
                ws0[k].last_x,
                0,
                ws0[k].width_max,
                b0.current.height,
            );
            &&& spec_current_eq(
                (#[trigger] ws1[k]).current,
                spec_resolved_current(ws0[k].props, events, m),
            )
            &&& ws1[k].mouse_over == m
            &&& ws1[k].x == spec_flow_width(ws1.take(k))
            &&& (ws1[k].cmd_out@ != ws0[k].cmd_out@ ==> ws1[k].needs_redraw)
            &&& (ws0[k].width_min <= ws0[k].width_max ==> exists|meas: u16|
                (ws1[k].width_min, ws1[k].width_max) == spec_commit_band(
                    ws0[k].width_min,
                    ws0[k].width_max,
                    meas,
                    spec_avg_char_width(meas, ws1[k].cmd_out@.len()),
                ))
        }
    &&& (!force && !bar_redraw && (forall|k: int|
        0 <= k < ws0.len() ==> spec_widget_quiet(
            #[trigger] ws0[k],
            events,
            spec_has_point_cropped(
                b0.fake_geometry,
                mx,
                my,
                scrw,
                scrh,
                ws0[k].last_x,
                0,
                ws0[k].width_max,
                b0.current.height,
            ),
        ))) ==> forall|k: int|
        0 <= k < ws1.len() ==> !(#[trigger] ws1[k]).needs_redraw && ws1[k].width_max
            == ws0[k].width_max
}

/// Refreshes the widgets of one flow in order against the shared command
/// registry, hit-testing each against the hover-test geometry.
fn refresh_flow<M: TextMeasure>(
    widgets: &mut Vec<Widget>,
    cmdstate: &mut CommandSharedState,
    fake: WindowGeometry,
    height: u16,
    events: &Vec<Event>,
    force: bool,
    bar_redraw: bool,
    mx: i16,
    my: i16,
    scrw: u16,
    scrh: u16,
    measurer: &mut M,
) -> (r: i64)
    requires
        spec_widgets_wf(old(widgets)@),
        spec_positions_ok(old(widgets)@),
        old(widgets)@.len() <= 0x10000,
        spec_contains_default(events@),
    ensures
        spec_widgets_wf(final(widgets)@),
        spec_positions_ok(final(widgets)@),
        final(widgets)@.len() == old(widgets)@.len(),
        r == spec_flow_width(final(widgets)@),
        0 <= r <= 0xFFFF_0000,
        forall|k: int|
            0 <= k < old(widgets)@.len() ==> (#[trigger] final(widgets)@[k]).props == old(
                widgets,
            )@[k].props && final(widgets)@[k].last_x == old(widgets)@[k].last_x,
        forall|k: int|
            0 <= k < old(widgets)@.len() ==> {
                let m = spec_has_point_cropped(
                    fake,
                    mx,
                    my,
                    scrw,
                    scrh,
                    old(widgets)@[k].last_x,
                    0,
                    old(widgets)@[k].width_max,
                    height,
                );
                &&& spec_current_eq(
                    (#[trigger] final(widgets)@[k]).current,
                    spec_resolved_current(old(widgets)@[k].props, events@, m),
                )
                &&& final(widgets)@[k].mouse_over == m
                &&& final(widgets)@[k].x == spec_flow_width(final(widgets)@.take(k))
                &&& (final(widgets)@[k].cmd_out@ != old(widgets)@[k].cmd_out@
                    ==> final(widgets)@[k].needs_redraw)
                &&& (old(widgets)@[k].width_min <= old(widgets)@[k].width_max ==> exists|
                    meas: u16,
                |
                    (final(widgets)@[k].width_min, final(widgets)@[k].width_max)
                        == spec_commit_band(
                        old(widgets)@[k].width_min,
                        old(widgets)@[k].width_max,
                        meas,
                        spec_avg_char_width(meas, final(widgets)@[k].cmd_out@.len()),
                    ))
            },
        (!force && !bar_redraw && (forall|k: int|
            0 <= k < old(widgets)@.len() ==> spec_widget_quiet(
                #[trigger] old(widgets)@[k],
                events@,
                spec_has_point_cropped(
                    fake,
                    mx,
                    my,
                    scrw,
                    scrh,
                    old(widgets)@[k].last_x,
                    0,
                    old(widgets)@[k].width_max,
                    height,
                ),
            ))) ==> forall|k: int|
            0 <= k < final(widgets)@.len() ==> !(#[trigger] final(widgets)@[k]).needs_redraw
                && final(widgets)@[k].width_max == old(widgets)@[k].width_max,
{
    let n = widgets.len();
    let ghost ws0 = old(widgets)@;
    let ghost quiet_all = !force && !bar_redraw && (forall|k: int|
        0 <= k < ws0.len() ==> spec_widget_quiet(
            #[trigger] ws0[k],
            events@,
            spec_has_point_cropped(
                fake,
                mx,
                my,
                scrw,
                scrh,
                ws0[k].last_x,
                0,
                ws0[k].width_max,
                height,
            ),
        ));
    let mut cursor: i64 = 0;
    let mut width_change: i64 = 0;
    let mut i: usize = 0;
    while i < n
        invariant
            spec_contains_default(events@),
            n == widgets@.len(),
            n == ws0.len(),
            n <= 0x10000,
            i <= n,
            spec_widgets_wf(widgets@),
            spec_positions_ok(widgets@),
            forall|k: int|
                0 <= k < n ==> (#[trigger] widgets@[k]).props == ws0[k].props
                    && widgets@[k].last_x == ws0[k].last_x,
            forall|k: int| i <= k < n ==> #[trigger] widgets@[k] == ws0[k],
            cursor == spec_flow_width(widgets@.take(i as int)),
            0 <= cursor <= 0xFFFF * i,
            quiet_all == (!force && !bar_redraw && (forall|k: int|
                0 <= k < ws0.len() ==> spec_widget_quiet(
                    #[trigger] ws0[k],
                    events@,
                    spec_has_point_cropped(
                        fake,
                        mx,
                        my,
                        scrw,
                        scrh,
                        ws0[k].last_x,
                        0,
                        ws0[k].width_max,
                        height,
                    ),
                ))),
            quiet_all ==> width_change == 0 && (forall|k: int|
                0 <= k < i ==> !(#[trigger] widgets@[k]).needs_redraw && widgets@[k].width_max
                    == ws0[k].width_max),
            forall|k: int|
                0 <= k < i ==> {
                    let m = spec_has_point_cropped(
                        fake,
                        mx,
                        my,
                        scrw,
                        scrh,
                        ws0[k].last_x,
                        0,
                        ws0[k].width_max,
                        height,
                    );
                    &&& spec_current_eq(
                        (#[trigger] widgets@[k]).current,
                        spec_resolved_current(ws0[k].props, events@, m),
                    )
                    &&& widgets@[k].mouse_over == m
                    &&& widgets@[k].x == spec_flow_width(widgets@.take(k))
                    &&& (widgets@[k].cmd_out@ != ws0[k].cmd_out@ ==> widgets@[k].needs_redraw)
                    &&& (ws0[k].width_min <= ws0[k].width_max ==> exists|meas: u16|
                        (widgets@[k].width_min, widgets@[k].width_max) == spec_commit_band(
                            ws0[k].width_min,
                            ws0[k].width_max,
                            meas,
                            spec_avg_char_width(meas, widgets@[k].cmd_out@.len()),
                        ))
                },
            -0xFFFF * i <= width_change <= 0xFFFF * i,
        decreases n - i,
    {
        let ghost ws_pre = widgets@;
        let last_x = widgets[i].last_x;
        let width_max = widgets[i].width_max;
        let m = fake.has_point_cropped(mx, my, scrw, scrh, last_x, 0, width_max, height);
        proof {
            if quiet_all {
                assert(ws_pre[i as int] == ws0[i as int]);
                assert(spec_widget_quiet(ws0[i as int], events@, m));
            }
        }
        let delta: i32 = widgets[i].refresh_one(
            cmdstate,
            events,
            force,
            bar_redraw,
            width_change,
            m,
            height,
            cursor,
            measurer,
        );
        proof {
            assert(widgets@.take(i as int) =~= ws_pre.take(i as int));
            assert forall|k: int| 0 <= k <= i implies widgets@.take(k) =~= ws_pre.take(k) by {}
        }
        width_change = width_change + (delta as i64);
        let wmax = widgets[i].width_max;
        cursor = cursor + (wmax as i64);
        proof {
            assert(widgets@.take(i + 1).last() == widgets@[i as int]);
            assert(widgets@.take(i + 1).drop_last() =~= widgets@.take(i as int));
            lemma_flow_width_last(widgets@.take(i + 1));
            lemma_flow_width_nonneg(widgets@.take(i as int));
        }
        i = i + 1;
    }
    proof {
        assert(widgets@.take(n as int) =~= widgets@);
        lemma_flow_width_nonneg(widgets@);
        lemma_flow_width_bound(widgets@);
    }
    cursor
}

/// A flow's width is at most the widest possible widget per member.
pub proof fn lemma_flow_width_bound(ws: Seq<Widget>)
    ensures
        spec_flow_width(ws) <= 0xFFFF * ws.len(),
    decreases ws.len(),
{
    if ws.len() > 0 {
        lemma_flow_width_bound(ws.drop_first());
    }
}

/// A flow's width is never negative.
pub proof fn lemma_flow_width_nonneg(ws: Seq<Widget>)
    ensures
        spec_flow_width(ws) >= 0,
    decreases ws.len(),
{
    if ws.len() > 0 {
        lemma_flow_width_nonneg(ws.drop_first());
    }
}

/// A nonempty flow's width is the width before its last widget plus that
/// widget's committed width.
pub proof fn lemma_flow_width_last(ws: Seq<Widget>)
    requires
        ws.len() > 0,
    ensures
        spec_flow_width(ws) == spec_flow_width(ws.drop_last()) + ws.last().width_max,
    decreases ws.len(),
{
    if ws.len() > 1 {
        assert(ws.drop_first().drop_last() =~= ws.drop_last().drop_first());
        lemma_flow_width_last(ws.drop_first());
    } else {
        assert(ws.drop_last() =~= Seq::<Widget>::empty());
        assert(ws.drop_first() =~= Seq::<Widget>::empty());
    }
}

/// The window geometry one tick asks for: the resolved bar properties
/// with the computed width, clamped to the pixel range.
pub open spec fn spec_next_geom(c: BarPropsCurrent, width: int) -> WindowGeometry {
    WindowGeometry {
        dir: c.alignment,
        xoff: c.xoff,
        yoff: c.yoff,
        w: spec_sat_u16(width),
        h: c.height,
        solid: c.solid,
        above: c.above,
        below: c.below,
        visible: c.visible,
    }
}

/// Whether any active event requests a redraw.
pub open spec fn spec_any_expose(events: Seq<Event>) -> bool {
    exists|i: int| 0 <= i < events.len() && (#[trigger] events[i]) is Expose
}

/// Whether one widget must be drawn this tick: everything is repainted,
/// it is marked for redraw, or its slot moved since it was last drawn.
pub open spec fn spec_widget_drawn(w: Widget, global: bool, offset: int) -> bool {
    global || w.needs_redraw || w.x + offset != w.last_x
}

/// The widget draw commands one flow emits, in index order: one command
/// for exactly the widgets that must be drawn.
pub open spec fn spec_flow_draw_cmds(
    ws: Seq<Widget>,
    left_flow: bool,
    global: bool,
    offset: int,
) -> Seq<DrawCmd>
    decreases ws.len(),
{
    if ws.len() == 0 {
        Seq::<DrawCmd>::empty()
    } else {
        spec_flow_draw_cmds(ws.drop_last(), left_flow, global, offset) + if spec_widget_drawn(
            ws.last(),
            global,
            offset,
        ) {
            seq![
                DrawCmd::Widget {
                    left_flow,
                    index: (ws.len() - 1) as usize,
                    offset: offset as i64,
                },
            ]
        } else {
            Seq::<DrawCmd>::empty()
        }
    }
}

/// A flow of widgets none of which must be drawn emits nothing.
pub proof fn lemma_flow_draw_cmds_empty(ws: Seq<Widget>, left_flow: bool, offset: int)
    requires
        forall|k: int| 0 <= k < ws.len() ==> !spec_widget_drawn(#[trigger] ws[k], false, offset),
    ensures
        spec_flow_draw_cmds(ws, left_flow, false, offset) =~= Seq::<DrawCmd>::empty(),
    decreases ws.len(),
{
    if ws.len() > 0 {
        assert(forall|k: int|
            0 <= k < ws.drop_last().len() ==> !spec_widget_drawn(
                #[trigger] ws.drop_last()[k],
                false,
                offset,
            ));
        lemma_flow_draw_cmds_empty(ws.drop_last(), left_flow, offset);
    }
}

/// How one flow leaves its widgets after the draw phase: each widget's
/// drawn position is remembered and its redraw mark cleared, all else
/// untouched.
pub open spec fn spec_draw_transform(mid: Seq<Widget>, ws1: Seq<Widget>, offset: int) -> bool {
    &&& ws1.len() == mid.len()
    &&& forall|k: int|
        0 <= k < mid.len() ==> #[trigger] ws1[k] == (Widget {
            last_x: (mid[k].x + offset) as i64,
            needs_redraw: false,
            ..mid[k]
        })
}

/// Emits the draw commands for one flow: a widget is drawn when
/// everything is repainted, when it is marked for redraw, or when its slot
/// moved; its drawn position is remembered and its mark cleared.
fn draw_flow(
    widgets: &mut Vec<Widget>,
    left_flow: bool,
    global: bool,
    offset: i64,
    draws: &mut Vec<DrawCmd>,
)
    requires
        spec_positions_ok(old(widgets)@),
        old(widgets)@.len() <= 0x10000,
        0 <= offset < 0x100_0000_0000,
    ensures
        spec_positions_ok(final(widgets)@),
        spec_widgets_wf(old(widgets)@) ==> spec_widgets_wf(final(widgets)@),
        spec_draw_transform(old(widgets)@, final(widgets)@, offset as int),
        final(draws)@ == old(draws)@ + spec_flow_draw_cmds(
            old(widgets)@,
            left_flow,
            global,
            offset as int,
        ),
{
    let n = widgets.len();
    let ghost ws0 = old(widgets)@;
    let ghost d0 = old(draws)@;
    proof {
        assert(ws0.take(0int) =~= Seq::<Widget>::empty());
        assert(draws@ =~= d0 + spec_flow_draw_cmds(ws0.take(0int), left_flow, global, offset as int));
    }
    let mut i: usize = 0;
    while i < n
        invariant
            n == widgets@.len(),
            n == ws0.len(),
            n <= 0x10000,
            i <= n,
            0 <= offset < 0x100_0000_0000,
            spec_positions_ok(widgets@),
            forall|k: int| i <= k < n ==> #[trigger] widgets@[k] == ws0[k],
            forall|k: int|
                0 <= k < i ==> #[trigger] widgets@[k] == (Widget {
                    last_x: (ws0[k].x + offset) as i64,
                    needs_redraw: false,
                    ..ws0[k]
                }),
            draws@ == d0 + spec_flow_draw_cmds(ws0.take(i as int), left_flow, global, offset as int),
        decreases n - i,
    {
        proof {
            assert(ws0.take(i + 1).drop_last() =~= ws0.take(i as int));
            assert(ws0.take(i + 1).last() == ws0[i as int]);
        }
        let w = &widgets[i];
        if global || w.needs_redraw || w.x + offset != w.last_x {
            draws.push(DrawCmd::Widget { left_flow, index: i, offset });
        }
        proof {
            assert(draws@ =~= d0 + spec_flow_draw_cmds(
                ws0.take(i + 1),
                left_flow,
                global,
                offset as int,
            ));
        }
        let w = &mut widgets[i];
        w.last_x = w.x + offset;
        w.needs_redraw = false;
        i = i + 1;
    }
    proof {
        assert(ws0.take(n as int) =~= ws0);
    }
}

impl Bar {
    /// One tick of the bar: resolves the bar snapshot, refreshes both
    /// widget flows, computes the final geometry, and returns the window
    /// reconfiguration and the minimal draws the driver must perform.
    ///
    /// The window is reconfigured only when the geometry genuinely
    /// changed; everything is repainted only then, or on an explicit
    /// redraw request.  Otherwise only widgets that changed, and the
    /// slivers of background the flows uncovered or newly covered, are
    /// repainted.
    #[verifier::rlimit(100)]
    #[verifier::spinoff_prover]
    pub fn refresh<M: TextMeasure>(
        &mut self,
        events: &Vec<Event>,
        force: bool,
        mx: i16,
        my: i16,
        scrw: u16,
        scrh: u16,
        now: u64,
        measurer: &mut M,
    ) -> (out: RefreshOutput)
        requires
            spec_bar_wf(*old(self)),
            spec_contains_default(events@),
        ensures
            spec_bar_wf(*final(self)),
            final(self).props == old(self).props,
            final(self).current == spec_resolved_bar_current(
                old(self).props,
                events@,
                spec_has_point(old(self).fake_geometry, mx, my, scrw, scrh),
            ),
            spec_layout_post(*old(self), *final(self), out, events@, scrw),
            spec_tick_post(*old(self), *final(self), out, events@, force, mx, my, scrw, scrh),
    {
        self.cmdstate.now_ms = now;
        let bm = self.fake_geometry.has_point(mx, my, scrw, scrh);
        let new_current = self.props.as_current(events, bm);
        proof {
            assert(new_current == spec_resolved_bar_current(
                old(self).props,
                events@,
                spec_has_point(old(self).fake_geometry, mx, my, scrw, scrh),
            ));
        }
        let bar_redraw = !(new_current == self.current);
        self.current = new_current;
        let width_left = self.refresh_widgets(
            true,
            events,
            force,
            bar_redraw,
            mx,
            my,
            scrw,
            scrh,
            measurer,
        );
        let width_right = self.refresh_widgets(
            false,
            events,
            force,
            bar_redraw,
            mx,
            my,
            scrw,
            scrh,
            measurer,
        );
        let ghost ml = self.widgets_left@;
        let ghost mr = self.widgets_right@;
        let out = self.layout_and_draw(events, width_left, width_right, scrw);
        proof {
            let mid = spec_mid_bar(*old(self), events@, mx, my, scrw, scrh);
            let dirty = !(mid.current == old(self).current);
            assert(spec_flow_step(
                old(self).widgets_left@,
                ml,
                spec_flow_width(ml),
                mid,
                events@,
                force,
                dirty,
                mx,
                my,
                scrw,
                scrh,
            ));
            assert(spec_flow_step(
                old(self).widgets_right@,
                mr,
                spec_flow_width(mr),
                mid,
                events@,
                force,
                dirty,
                mx,
                my,
                scrw,
                scrh,
            ));
        }
        out
    }

    /// Computes the final geometry from the flow widths, decides whether
    /// the window must be reconfigured or everything repainted, and emits
    /// the widget draws and the background slivers between the flows.
    #[verifier::rlimit(100)]
    #[verifier::spinoff_prover]
    fn layout_and_draw(
        &mut self,
        events: &Vec<Event>,
        width_left: i64,
        width_right: i64,
        scrw: u16,
    ) -> (out: RefreshOutput)
        requires
            spec_bar_props_wf(old(self).props),
            spec_widgets_wf(old(self).widgets_left@),
            spec_widgets_wf(old(self).widgets_right@),
            old(self).widgets_left@.len() <= 0x10000,
            old(self).widgets_right@.len() <= 0x10000,
            spec_positions_ok(old(self).widgets_left@),
            spec_positions_ok(old(self).widgets_right@),
            spec_contains_default(events@),
            width_left == spec_flow_width(old(self).widgets_left@),
            width_right == spec_flow_width(old(self).widgets_right@),
            0 <= width_left <= 0xFFFF_0000,
            0 <= width_right <= 0xFFFF_0000,
        ensures
            spec_bar_wf(*final(self)),
            final(self).props == old(self).props,
            final(self).current == old(self).current,
            spec_layout_post(*old(self), *final(self), out, events@, scrw),
            spec_draw_transform(old(self).widgets_left@, final(self).widgets_left@, 0),
            spec_draw_transform(
                old(self).widgets_right@,
                final(self).widgets_right@,
                final(self).offset as int,
            ),
            ({
                let wcmds = spec_flow_draw_cmds(
                    old(self).widgets_left@,
                    true,
                    out.global_redraw,
                    0,
                ) + spec_flow_draw_cmds(
                    old(self).widgets_right@,
                    false,
                    out.global_redraw,
                    final(self).offset as int,
                );
                &&& out.draws@.len() >= wcmds.len()
                &&& out.draws@.take(wcmds.len() as int) == wcmds
                &&& spec_background_tail(
                    old(self).middle_left as int,
                    old(self).middle_right as int,
                    width_left as int,
                    final(self).offset as int,
                    out.global_redraw,
                    final(self).current.height,
                    old(self).default_bg@,
                    out.draws@.skip(wcmds.len() as int),
                )
            }),
    {
        let height = self.current.height;
        proof {
            assert((scrw as u64) * (self.current.screenwidth as u64) <= 65535u64
                * 0xFFFF_FFFFu64) by (nonlinear_arith)
                requires
                    scrw as u64 <= 65535u64,
                    self.current.screenwidth as u64 <= 0xFFFF_FFFFu64,
            ;
        }
        let minwidth = ((scrw as u64) * (self.current.screenwidth as u64) / 1000) as i64;
        let width = if minwidth > width_left + width_right {
            minwidth
        } else {
            width_left + width_right
        };
        self.offset = width - width_right;
        let new_middle_left = width_left;
        let new_middle_right = self.offset;
        let wsat: u16 = if width > 0xFFFF {
            0xFFFF
        } else {
            width as u16
        };
        let next_geom = WindowGeometry {
            dir: self.current.alignment,
            xoff: self.current.xoff,
            yoff: self.current.yoff,
            w: wsat,
            h: height,
            solid: self.current.solid,
            above: self.current.above,
            below: self.current.below,
            visible: self.current.visible,
        };
        self.fake_geometry = WindowGeometry {
            dir: *self.props.alignment.get(events, false),
            xoff: *self.props.xoff.get(events, false),
            yoff: *self.props.yoff.get(events, false),
            w: wsat,
            h: height,
            solid: self.current.solid,
            above: self.current.above,
            below: self.current.below,
            visible: self.current.visible,
        };
        let configure: Option<WindowGeometry> = if !(next_geom == self.geometry) {
            self.geometry = next_geom;
            Some(next_geom)
        } else {
            None
        };
        let global_redraw = configure.is_some() || any_expose(events);
        let mut draws: Vec<DrawCmd> = Vec::new();
        let offset = self.offset;
        let ghost wl_pre = self.widgets_left@;
        let ghost wr_pre = self.widgets_right@;
        draw_flow(&mut self.widgets_left, true, global_redraw, 0, &mut draws);
        draw_flow(&mut self.widgets_right, false, global_redraw, offset, &mut draws);
        proof {
            lemma_flow_width_congruence(wl_pre, self.widgets_left@);
            lemma_flow_width_congruence(wr_pre, self.widgets_right@);
        }
        let ghost wcmds = draws@;
        proof {
            assert(wcmds =~= spec_flow_draw_cmds(wl_pre, true, global_redraw, 0int)
                + spec_flow_draw_cmds(wr_pre, false, global_redraw, offset as int));
        }
        if global_redraw {
            draws.push(
                DrawCmd::Rect {
                    x: width_left,
                    w: self.offset - width_left,
                    h: height,
                    bg: self.default_bg.clone(),
                },
            );
        } else {
            if new_middle_left < self.middle_left {
                let end = if self.middle_left < new_middle_right {
                    self.middle_left
                } else {
                    new_middle_right
                };
                if self.middle_right < end {
                    self.middle_right = end;
                }
                draws.push(
                    DrawCmd::Rect {
                        x: new_middle_left,
                        w: end - new_middle_left,
                        h: height,
                        bg: self.default_bg.clone(),
                    },
                );
            }
            if new_middle_right > self.middle_right {
                let begin = if self.middle_right > new_middle_left {
                    self.middle_right
                } else {
                    new_middle_left
                };
                draws.push(
                    DrawCmd::Rect {
                        x: begin,
                        w: new_middle_right - begin,
                        h: height,
                        bg: self.default_bg.clone(),
                    },
                );
            }
        }
        proof {
            assert(draws@.take(wcmds.len() as int) =~= wcmds);
            assert(spec_background_tail(
                old(self).middle_left as int,
                old(self).middle_right as int,
                width_left as int,
                self.offset as int,
                global_redraw,
                height,
                old(self).default_bg@,
                draws@.skip(wcmds.len() as int),
            ));
        }
        self.middle_left = new_middle_left;
        self.middle_right = new_middle_right;
        RefreshOutput { configure, global_redraw, draws }
    }
}

/// The bar as it stands mid-tick, after the bar snapshot resolved but
/// before the widget flows ran.
pub open spec fn spec_mid_bar(
    b0: Bar,
    events: Seq<Event>,
    mx: i16,
    my: i16,
    scrw: u16,
    scrh: u16,
) -> Bar {
    Bar {
        current: spec_resolved_bar_current(
            b0.props,
            events,
            spec_has_point(b0.fake_geometry, mx, my, scrw, scrh),
        ),
        ..b0
    }
}

/// What one whole tick establishes, beyond the layout: there are
/// mid-tick flow states which the refresh pass produced from the old
/// flows, from which the draw pass produced both the final flows and
/// exactly the emitted widget draws, followed by exactly the background
/// fills the damage engine owes.
pub open spec fn spec_tick_post(
    b0: Bar,
    b1: Bar,
    out: RefreshOutput,
    events: Seq<Event>,
    force: bool,
    mx: i16,
    my: i16,
    scrw: u16,
    scrh: u16,
) -> bool {
    exists|ml: Seq<Widget>, mr: Seq<Widget>|
        #![trigger spec_draw_transform(ml, b1.widgets_left@, 0), spec_draw_transform(mr, b1.widgets_right@, b1.offset as int)]
        {
            let mid = spec_mid_bar(b0, events, mx, my, scrw, scrh);
            let dirty = !(mid.current == b0.current);
            &&& spec_flow_step(
                b0.widgets_left@,
                ml,
                spec_flow_width(ml),
                mid,
                events,
                force,
                dirty,
                mx,
                my,
                scrw,
                scrh,
            )
            &&& spec_flow_step(
                b0.widgets_right@,
                mr,
                spec_flow_width(mr),
                mid,
                events,
                force,
                dirty,
                mx,
                my,
                scrw,
                scrh,
            )
            &&& spec_draw_transform(ml, b1.widgets_left@, 0)
            &&& spec_draw_transform(mr, b1.widgets_right@, b1.offset as int)
            &&& ({
                let wcmds = spec_flow_draw_cmds(ml, true, out.global_redraw, 0)
                    + spec_flow_draw_cmds(mr, false, out.global_redraw, b1.offset as int);
                &&& out.draws@.len() >= wcmds.len()
                &&& out.draws@.take(wcmds.len() as int) == wcmds
                &&& spec_background_tail(
                    b0.middle_left as int,
                    b0.middle_right as int,
                    spec_flow_width(ml),
                    b1.offset as int,
                    out.global_redraw,
                    b1.current.height,
                    b0.default_bg@,
                    out.draws@.skip(wcmds.len() as int),
                )
            })
        }
}

/// A bar at rest with respect to an event list and pointer position:
/// the bar snapshot resolves to the stored one, every widget is quiet
/// (its snapshot resolves to its stored one and its command's output is
/// fixed by the configuration at its cached text), every widget stands
/// drawn in its layout slot, and the committed geometry and extents are
/// the ones the same widths yield.  A bar is in this state right after a
/// tick whose inputs then do not change.
pub open spec fn spec_bar_settled(
    b0: Bar,
    events: Seq<Event>,
    mx: i16,
    my: i16,
    scrw: u16,
    scrh: u16,
) -> bool {
    let wl = spec_flow_width(b0.widgets_left@);
    let wr = spec_flow_width(b0.widgets_right@);
    let minw = (scrw * b0.current.screenwidth) as int / 1000;
    let width = if minw > wl + wr {
        minw
    } else {
        wl + wr
    };
    &&& spec_resolved_bar_current(
        b0.props,
        events,
        spec_has_point(b0.fake_geometry, mx, my, scrw, scrh),
    ) == b0.current
    &&& forall|k: int|
        0 <= k < b0.widgets_left@.len() ==> spec_widget_quiet(
            #[trigger] b0.widgets_left@[k],
            events,
            spec_has_point_cropped(
                b0.fake_geometry,
                mx,
                my,
                scrw,
                scrh,
                b0.widgets_left@[k].last_x,
                0,
                b0.widgets_left@[k].width_max,
                b0.current.height,
            ),
        )
    &&& forall|k: int|
        0 <= k < b0.widgets_right@.len() ==> spec_widget_quiet(
            #[trigger] b0.widgets_right@[k],
            events,
            spec_has_point_cropped(
                b0.fake_geometry,
                mx,
                my,
                scrw,
                scrh,
                b0.widgets_right@[k].last_x,
                0,
                b0.widgets_right@[k].width_max,
                b0.current.height,
            ),
        )
    &&& forall|k: int|
        0 <= k < b0.widgets_left@.len() ==> (#[trigger] b0.widgets_left@[k]).x
            == spec_flow_width(b0.widgets_left@.take(k)) && b0.widgets_left@[k].last_x
            == b0.widgets_left@[k].x
    &&& forall|k: int|
        0 <= k < b0.widgets_right@.len() ==> (#[trigger] b0.widgets_right@[k]).x
            == spec_flow_width(b0.widgets_right@.take(k)) && b0.widgets_right@[k].last_x
            == b0.widgets_right@[k].x + b0.offset
    &&& spec_next_geom(b0.current, width) == b0.geometry
    &&& b0.middle_left == wl
    &&& b0.offset == width - wr
    &&& b0.middle_right == b0.offset
}

/// Refreshing a settled bar draws nothing: with no force flag and no
/// redraw request among the events, a second tick over identical inputs
/// reconfigures nothing, repaints nothing globally, and emits not one
/// draw command.
pub proof fn lemma_calm_tick_draws_nothing(
    b0: Bar,
    b1: Bar,
    out: RefreshOutput,
    events: Seq<Event>,
    mx: i16,
    my: i16,
    scrw: u16,
    scrh: u16,
)
    requires
        spec_tick_post(b0, b1, out, events, false, mx, my, scrw, scrh),
        spec_layout_post(b0, b1, out, events, scrw),
        b1.current == spec_resolved_bar_current(
            b0.props,
            events,
            spec_has_point(b0.fake_geometry, mx, my, scrw, scrh),
        ),
        spec_bar_settled(b0, events, mx, my, scrw, scrh),
        !spec_any_expose(events),
    ensures
        out.configure is None,
        !out.global_redraw,
        out.draws@.len() == 0,
{
    let mid = spec_mid_bar(b0, events, mx, my, scrw, scrh);
    let dirty = !(mid.current == b0.current);
    let (ml, mr) = choose|ml: Seq<Widget>, mr: Seq<Widget>|
        #![trigger spec_draw_transform(ml, b1.widgets_left@, 0), spec_draw_transform(mr, b1.widgets_right@, b1.offset as int)]
        {
            &&& spec_flow_step(
                b0.widgets_left@,
                ml,
                spec_flow_width(ml),
                mid,
                events,
                false,
                dirty,
                mx,
                my,
                scrw,
                scrh,
            )
            &&& spec_flow_step(
                b0.widgets_right@,
                mr,
                spec_flow_width(mr),
                mid,
                events,
                false,
                dirty,
                mx,
                my,
                scrw,
                scrh,
            )
            &&& spec_draw_transform(ml, b1.widgets_left@, 0)
            &&& spec_draw_transform(mr, b1.widgets_right@, b1.offset as int)
            &&& ({
                let wcmds = spec_flow_draw_cmds(ml, true, out.global_redraw, 0)
                    + spec_flow_draw_cmds(mr, false, out.global_redraw, b1.offset as int);
                &&& out.draws@.len() >= wcmds.len()
                &&& out.draws@.take(wcmds.len() as int) == wcmds
                &&& spec_background_tail(
                    b0.middle_left as int,
                    b0.middle_right as int,
                    spec_flow_width(ml),
                    b1.offset as int,
                    out.global_redraw,
                    b1.current.height,
                    b0.default_bg@,
                    out.draws@.skip(wcmds.len() as int),
                )
            })
        };
    // The quiet direction: no widget is marked and no width moved.
    assert(forall|k: int|
        0 <= k < ml.len() ==> !(#[trigger] ml[k]).needs_redraw && ml[k].width_max
            == b0.widgets_left@[k].width_max);
    assert(forall|k: int|
        0 <= k < mr.len() ==> !(#[trigger] mr[k]).needs_redraw && mr[k].width_max
            == b0.widgets_right@[k].width_max);
    lemma_flow_width_congruence(b0.widgets_left@, ml);
    lemma_flow_width_congruence(b0.widgets_right@, mr);
    // The draw phase keeps every committed width, so the final flows
    // carry the same widths as the old ones.
    assert(forall|k: int|
        0 <= k < ml.len() ==> (#[trigger] b1.widgets_left@[k]).width_max == ml[k].width_max);
    assert(forall|k: int|
        0 <= k < mr.len() ==> (#[trigger] b1.widgets_right@[k]).width_max == mr[k].width_max);
    lemma_flow_width_congruence(ml, b1.widgets_left@);
    lemma_flow_width_congruence(mr, b1.widgets_right@);
    // The same widths yield the same geometry and extents as committed.
    let wl = spec_flow_width(b0.widgets_left@);
    let wr = spec_flow_width(b0.widgets_right@);
    assert(b1.current == b0.current);
    assert(spec_flow_width(b1.widgets_left@) == wl);
    assert(spec_flow_width(b1.widgets_right@) == wr);
    assert(out.configure is None);
    assert(!out.global_redraw);
    assert(b1.offset == b0.offset);
    // Each widget still stands drawn in its slot, so none is emitted.
    assert forall|k: int| 0 <= k < ml.len() implies !spec_widget_drawn(
        #[trigger] ml[k],
        false,
        0,
    ) by {
        lemma_flow_width_congruence(b0.widgets_left@.take(k), ml.take(k));
        assert(ml[k].x == b0.widgets_left@[k].x);
        assert(ml[k].last_x == b0.widgets_left@[k].last_x);
    }
    assert forall|k: int| 0 <= k < mr.len() implies !spec_widget_drawn(
        #[trigger] mr[k],
        false,
        b1.offset as int,
    ) by {
        lemma_flow_width_congruence(b0.widgets_right@.take(k), mr.take(k));
        assert(mr[k].x == b0.widgets_right@[k].x);
        assert(mr[k].last_x == b0.widgets_right@[k].last_x);
    }
    lemma_flow_draw_cmds_empty(ml, true, 0);
    lemma_flow_draw_cmds_empty(mr, false, b1.offset as int);
    // No widget draws and no background sliver: nothing at all.
    assert(out.draws@.take(0int) =~= Seq::<DrawCmd>::empty());
    assert(out.draws@.skip(0int) =~= out.draws@);
    assert(out.draws@.len() == 0);
}

/// Whether a draw command is the background fill of one horizontal span.
pub open spec fn spec_rect_is(c: DrawCmd, x: int, w: int, h: u16, bg: DrawableView) -> bool {
    c matches DrawCmd::Rect { x: cx, w: cw, h: ch, bg: cbg } && cx == x && cw == w && ch == h
        && cbg@ == bg
}

/// The background fills one tick emits after the widget draws: on a full
/// repaint, the single span between the flows; otherwise only the slivers
/// the flows' boundary uncovered on the left or newly covered on the
/// right since the previous tick.
pub open spec fn spec_background_tail(
    old_ml: int,
    old_mr: int,
    new_ml: int,
    new_mr: int,
    global: bool,
    h: u16,
    bg: DrawableView,
    tail: Seq<DrawCmd>,
) -> bool {
    if global {
        tail.len() == 1 && spec_rect_is(tail[0], new_ml, new_mr - new_ml, h, bg)
    } else {
        let c1 = new_ml < old_ml;
        let end = if old_ml < new_mr {
            old_ml
        } else {
            new_mr
        };
        let mr1 = if c1 && old_mr < end {
            end
        } else {
            old_mr
        };
        let c2 = new_mr > mr1;
        let begin = if mr1 > new_ml {
            mr1
        } else {
            new_ml
        };
        &&& tail.len() == (if c1 {
            1int
        } else {
            0int
        }) + (if c2 {
            1int
        } else {
            0int
        })
        &&& (c1 ==> spec_rect_is(tail[0], new_ml, end - new_ml, h, bg))
        &&& (c2 ==> spec_rect_is(tail[tail.len() - 1], begin, new_mr - begin, h, bg))
    }
}

/// What one tick's layout establishes: the committed geometry follows the
/// resolved snapshot and the computed width, the window is reconfigured
/// exactly when that geometry changed, everything is repainted exactly
/// then or on an explicit redraw request, and the stored extents record
/// the flows' occupied range.
pub open spec fn spec_layout_post(
    b0: Bar,
    b1: Bar,
    out: RefreshOutput,
    events: Seq<Event>,
    scrw: u16,
) -> bool {
    let wl = spec_flow_width(b1.widgets_left@);
    let wr = spec_flow_width(b1.widgets_right@);
    let minw = (scrw * b1.current.screenwidth) as int / 1000;
    let width = if minw > wl + wr {
        minw
    } else {
        wl + wr
    };
    &&& b1.offset == width - wr
    &&& b1.middle_left == wl
    &&& b1.middle_right == b1.offset
    &&& b1.geometry == spec_next_geom(b1.current, width)
    &&& out.configure == if !(spec_next_geom(b1.current, width) == b0.geometry) {
        Some(b1.geometry)
    } else {
        None::<WindowGeometry>
    }
    &&& out.global_redraw == (!(spec_next_geom(b1.current, width) == b0.geometry)
        || spec_any_expose(events))
}

/// Flows whose widgets agree on committed widths have the same total
/// width.
pub proof fn lemma_flow_width_congruence(ws1: Seq<Widget>, ws2: Seq<Widget>)
    requires
        ws1.len() == ws2.len(),
        forall|k: int| 0 <= k < ws1.len() ==> (#[trigger] ws2[k]).width_max == ws1[k].width_max,
    ensures
        spec_flow_width(ws1) == spec_flow_width(ws2),
    decreases ws1.len(),
{
    if ws1.len() > 0 {
        assert(forall|k: int|
            0 <= k < ws1.drop_first().len() ==> (#[trigger] ws2.drop_first()[k]).width_max
                == ws1.drop_first()[k].width_max);
        lemma_flow_width_congruence(ws1.drop_first(), ws2.drop_first());
    }
}

/// The snapshot the bar-level properties resolve to.
pub open spec fn spec_resolved_bar_current(
    p: BarProps,
    events: Seq<Event>,
    m: bool,
) -> BarPropsCurrent
    recommends
        spec_bar_props_wf(p),
        spec_contains_default(events),
{
    BarPropsCurrent {
        alignment: spec_rv(p.alignment, events, m),
        height: spec_rv(p.height, events, m),
        screenwidth: spec_rv(p.screenwidth, events, m),
        xoff: spec_rv(p.xoff, events, m),
        yoff: spec_rv(p.yoff, events, m),
        solid: spec_rv(p.solid, events, m),
        above: spec_rv(p.above, events, m),
        below: spec_rv(p.below, events, m),
        visible: spec_rv(p.visible, events, m),
    }
}

/// Whether any active event requests a redraw.
fn any_expose(events: &Vec<Event>) -> (r: bool)
    ensures
        r == spec_any_expose(events@),
{
    let n = events.len();
    let mut i: usize = 0;
    while i < n
        invariant
            n == events@.len(),
            i <= n,
            forall|k: int| 0 <= k < i ==> !((#[trigger] events@[k]) is Expose),
        decreases n - i,
    {
        if events[i].is_expose() {
            return true;
        }
        i = i + 1;
    }
    false
}

} // verus!
