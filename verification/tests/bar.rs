//! End-to-end ticks of the bar: hover-driven command switching, geometry
//! changes, layout, hysteresis and redraw suppression.

use ravenbar::bar::{Bar, DrawCmd, TextMeasure, Widget};
use ravenbar::command::CommandSharedState;
use ravenbar::command::state::StateSingleton;
use ravenbar::config::{
    BarConfig, BarConfigProps, BarConfigWidget, BarConfigWidgetProps, bar_props_from, split_key,
    widget_props_from,
};
use ravenbar::command::RawValue;
use ravenbar::draw::Drawable;
use ravenbar::event::{Event, EventListeners};

/// A text measurer with a fixed width per byte of text.
struct PerByte(u16);

impl TextMeasure for PerByte {
    fn measure(&mut self, text: &String, _font: &String, _height: u16) -> u16 {
        (text.len() as u16) * self.0
    }
}

/// A measurer that knows two texts and falls back per byte.
struct Table;

impl TextMeasure for Table {
    fn measure(&mut self, text: &String, _font: &String, _height: u16) -> u16 {
        match text.len() {
            18 => 36,
            23 => 46,
            n => (n as u16) * 8,
        }
    }
}

fn widget_config(entries: Vec<((&str, &str), BarConfigWidgetProps)>) -> BarConfigWidget {
    BarConfigWidget {
        properties: entries
            .into_iter()
            .map(|((e, s), p)| ((e.to_string(), s.to_string()), p))
            .collect(),
    }
}

fn raw_widget() -> BarConfigWidgetProps {
    BarConfigWidgetProps {
        foreground: None,
        background: None,
        black: None,
        red: None,
        green: None,
        yellow: None,
        blue: None,
        magenta: None,
        cyan: None,
        white: None,
        bright_black: None,
        bright_red: None,
        bright_green: None,
        bright_yellow: None,
        bright_blue: None,
        bright_magenta: None,
        bright_cyan: None,
        bright_white: None,
        warn: None,
        critical: None,
        dim: None,
        font: None,
        command: None,
        action: None,
        border_factor: None,
        interval: None,
    }
}

fn raw_bar() -> BarConfigProps {
    BarConfigProps {
        alignment: None,
        height: None,
        screenwidth: None,
        xoff: None,
        yoff: None,
        solid: None,
        above: None,
        below: None,
        visible: None,
    }
}

/// Builds a bar from per-event raw configuration.
fn build_bar(
    bar_entries: Vec<((&str, &str), BarConfigProps)>,
    left: Vec<BarConfigWidget>,
) -> Bar {
    let mut listeners = EventListeners::new();
    let states = StateSingleton::new();
    let workdir: Option<String> = None;
    let bar_config: Vec<((String, String), BarConfigProps)> = bar_entries
        .into_iter()
        .map(|((e, s), p)| ((e.to_string(), s.to_string()), p))
        .collect();
    let props = bar_props_from(&bar_config, &mut listeners, &states, &workdir, 0).unwrap();
    let mut widgets = Vec::new();
    for w in &left {
        let wp = widget_props_from(w, &mut listeners, &states, &workdir, 0).unwrap();
        let current = wp.as_current(&vec![Event::Default], false);
        widgets.push(Widget::new(wp, current));
    }
    let current = props.as_current(&vec![Event::Default], false);
    Bar::new(
        props,
        widgets,
        Vec::new(),
        Drawable::from("#222233"),
        current,
        CommandSharedState::new(),
    )
}

#[test]
fn hover_switches_command_without_waiting() {
    // command.default = "echo A", command.on_hover = "echo B",
    // interval = 5 seconds.  The pointer outside yields "A"; moving it
    // inside yields "B" on the next tick, because the resolved triggering
    // event changed, without waiting for the interval.
    let mut default_props = raw_widget();
    default_props.command = Some(RawValue::Text("echo A".to_string()));
    default_props.interval = Some(5000);
    let mut hover_props = raw_widget();
    hover_props.command = Some(RawValue::Text("echo B".to_string()));
    let widget = widget_config(vec![
        (("default", ""), default_props),
        (("on_hover", ""), hover_props),
    ]);
    let mut bar_defaults = raw_bar();
    bar_defaults.screenwidth = Some(1000);
    let mut bar = build_bar(vec![(("default", ""), bar_defaults)], vec![widget]);
    let mut measurer = PerByte(8);

    let outside = vec![Event::Default];
    bar.refresh(&outside, true, 500, 500, 200, 100, 1000, &mut measurer);
    assert_eq!(bar.widgets_left[0].cmd_out, "A\n");

    let hovering = vec![Event::Hover, Event::Default];
    bar.refresh(&hovering, false, 5, 5, 200, 100, 1016, &mut measurer);
    assert_eq!(bar.widgets_left[0].cmd_out, "B\n");
}

#[test]
fn bar_hover_changes_geometry_once() {
    // height.default = 24, height.on_hover = 30: hovering the bar changes
    // the window geometry and forces a full repaint on that tick only.
    let mut bar_defaults = raw_bar();
    bar_defaults.height = Some(24);
    bar_defaults.screenwidth = Some(1000);
    let mut bar_hover = raw_bar();
    bar_hover.height = Some(30);
    let mut bar = build_bar(
        vec![(("default", ""), bar_defaults), (("on_hover", ""), bar_hover)],
        vec![],
    );
    let mut measurer = PerByte(8);

    let events = vec![Event::Hover, Event::Default];
    let first = bar.refresh(&events, true, 500, 500, 100, 100, 0, &mut measurer);
    assert!(first.configure.is_some());
    assert_eq!(bar.geometry.h, 24);

    // Pointer moves onto the bar: the hover height takes effect.
    let second = bar.refresh(&events, false, 5, 5, 100, 100, 16, &mut measurer);
    assert!(second.configure.is_some());
    assert!(second.global_redraw);
    assert_eq!(bar.geometry.h, 30);

    // Still hovering: the geometry is already committed, nothing to do.
    let third = bar.refresh(&events, false, 5, 5, 100, 100, 32, &mut measurer);
    assert!(third.configure.is_none());
    assert!(!third.global_redraw);
}

#[test]
fn two_widgets_layout() {
    // Two adjacent widgets with committed widths 40 and 50 in the left
    // flow, an empty right flow and a minimum fraction below 90 pixels:
    // the bar is 90 wide and the right flow starts at 90.
    let mut a = raw_widget();
    a.command = Some(RawValue::Text("#AAAAAAAAAAAAAAAAAA".to_string()));
    let mut b = raw_widget();
    b.command = Some(RawValue::Text("#BBBBBBBBBBBBBBBBBBBBBBB".to_string()));
    let mut bar_defaults = raw_bar();
    bar_defaults.screenwidth = Some(100);
    let mut bar = build_bar(
        vec![(("default", ""), bar_defaults)],
        vec![
            widget_config(vec![(("default", ""), a)]),
            widget_config(vec![(("default", ""), b)]),
        ],
    );
    let mut measurer = Table;
    bar.refresh(&vec![Event::Default], true, 500, 500, 200, 100, 0, &mut measurer);
    // Measured 36 over 18 bytes commits the band [32, 40]; measured 46
    // over 23 bytes commits [42, 50].
    assert_eq!(bar.widgets_left[0].width_max, 40);
    assert_eq!(bar.widgets_left[1].width_max, 50);
    assert_eq!(bar.geometry.w, 90);
    assert_eq!(bar.offset, 90);
    assert_eq!(bar.middle_left, 90);
}

#[test]
fn identical_refreshes_draw_nothing() {
    // Two refreshes with identical inputs and no command-output change:
    // the second produces no draw commands at all.
    let mut a = raw_widget();
    a.command = Some(RawValue::Text("#steady".to_string()));
    let mut bar_defaults = raw_bar();
    bar_defaults.screenwidth = Some(1000);
    let mut bar = build_bar(
        vec![(("default", ""), bar_defaults)],
        vec![widget_config(vec![(("default", ""), a)])],
    );
    let mut measurer = PerByte(8);
    let events = vec![Event::Default];

    let first = bar.refresh(&events, true, 500, 500, 100, 100, 0, &mut measurer);
    assert!(!first.draws.is_empty());

    let second = bar.refresh(&events, false, 500, 500, 100, 100, 16, &mut measurer);
    assert!(second.configure.is_none());
    assert!(!second.global_redraw);
    assert_eq!(second.draws.len(), 0);
}

#[test]
fn hysteresis_band_absorbs_small_changes() {
    // Measurements inside the committed band never move it; only one
    // outside does.
    let mut w = {
        let config = widget_config(vec![(("default", ""), raw_widget())]);
        let mut listeners = EventListeners::new();
        let states = StateSingleton::new();
        let wp = widget_props_from(&config, &mut listeners, &states, &None, 0).unwrap();
        let current = wp.as_current(&vec![Event::Default], false);
        Widget::new(wp, current)
    };
    w.cmd_out = "1234567890".to_string();
    // First measurement 100 over 10 bytes: band [80, 120].
    let d = w.commit_width(100);
    assert_eq!((w.width_min, w.width_max), (80, 120));
    assert_eq!(d, -120);
    // Raw width changes within the band commit nothing.
    for width in [81, 99, 119, 120, 80] {
        let d = w.commit_width(width);
        assert_eq!((w.width_min, w.width_max), (80, 120));
        assert_eq!(d, 0);
    }
    // A measurement outside moves the band.
    let d = w.commit_width(130);
    assert_eq!((w.width_min, w.width_max), (104, 156));
    assert_eq!(d, 120 - 156);
}

#[test]
fn actions_run_every_tick() {
    // The bound action runs unconditionally each tick: here it advances a
    // named machine once per refresh.
    let mut action = raw_widget();
    action.command = Some(RawValue::Text("#idle".to_string()));
    action.action = Some(RawValue::Object(ravenbar::command::CommandObject {
        kind: Some("state_next".to_string()),
        core: None,
        network: None,
        mountpoint: None,
        card: None,
        volume: None,
        state_machine: Some("mode".to_string()),
        state: None,
        traverse: None,
    }));
    let mut bar_defaults = raw_bar();
    bar_defaults.screenwidth = Some(1000);
    let mut bar = build_bar(
        vec![(("default", ""), bar_defaults)],
        vec![widget_config(vec![(("default", ""), action)])],
    );
    bar.cmdstate.states.initialize(vec![(
        "mode".to_string(),
        vec!["a".to_string(), "b".to_string(), "c".to_string()],
    )]);
    let mut measurer = PerByte(8);
    let events = vec![Event::Default];
    bar.refresh(&events, true, 500, 500, 100, 100, 0, &mut measurer);
    assert_eq!(bar.cmdstate.states.get(&"mode".to_string()), 1);
    bar.refresh(&events, false, 500, 500, 100, 100, 16, &mut measurer);
    assert_eq!(bar.cmdstate.states.get(&"mode".to_string()), 2);
}

#[test]
fn file_events_and_key_splitting() {
    let (p, e, s) = split_key(&"command.on_press.left".to_string());
    assert_eq!((p.as_str(), e.as_str(), s.as_str()), ("command", "on_press", "left"));
    let (p, e, s) = split_key(&"height".to_string());
    assert_eq!((p.as_str(), e.as_str(), s.as_str()), ("height", "default", ""));

    let mut listeners = EventListeners::new();
    let states = StateSingleton::new();
    let e = listeners
        .event(&"on_file_changed".to_string(), &"notes.txt".to_string(), &states, &None, 100)
        .unwrap();
    assert_eq!(e, Event::FileChanged("notes.txt".to_string()));
    // Nothing changed yet.
    let events = listeners.get(&vec![], &vec![100], &states);
    assert!(!events.iter().any(|e| matches!(e, Event::FileChanged(_))));
    // The file moved forward in time.
    let events = listeners.get(&vec![], &vec![200], &states);
    assert!(events.iter().any(|e| matches!(e, Event::FileChanged(_))));
    // Every aggregation ends with the default event present and sorted
    // last.
    assert_eq!(events.last(), Some(&Event::Default));
}

#[test]
fn unused_config_type_is_sound() {
    // The full configuration container carries the flows and background.
    let cfg = BarConfig {
        properties: vec![],
        widgets_left: vec![],
        widgets_right: vec![],
        default_bg: "#222233".to_string(),
    };
    assert_eq!(cfg.widgets_left.len() + cfg.widgets_right.len(), 0);
    let _ = &cfg.default_bg;
}

#[test]
fn draw_commands_carry_offsets() {
    let mut a = raw_widget();
    a.command = Some(RawValue::Text("#x".to_string()));
    let mut bar_defaults = raw_bar();
    bar_defaults.screenwidth = Some(1000);
    let mut bar = build_bar(
        vec![(("default", ""), bar_defaults)],
        vec![widget_config(vec![(("default", ""), a)])],
    );
    let mut measurer = PerByte(8);
    let out = bar.refresh(&vec![Event::Default], true, 500, 500, 100, 100, 0, &mut measurer);
    assert!(out.global_redraw);
    let mut saw_widget = false;
    for d in &out.draws {
        match d {
            DrawCmd::Widget { left_flow, index, offset } => {
                assert!(*left_flow);
                assert_eq!(*index, 0);
                assert_eq!(*offset, 0);
                saw_widget = true;
            },
            DrawCmd::Rect { w, .. } => assert!(*w >= 0),
        }
    }
    assert!(saw_widget);
}
