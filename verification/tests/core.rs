//! Events, property resolution, formatting and color handling.

use ravenbar::event::{Event, EventTrait, sort_events, event_eq};
use ravenbar::props::Prop;
use ravenbar::utils::{find_human_readable, human_readable, human_readable_p10, u64_to_string, split_char, find_char};
use ravenbar::draw::{Color, Drawable, DrawableSet};
use ravenbar::window::{Direction, WindowGeometry};

fn ds_with_thresholds(warn: i64, critical: i64, dim: i64) -> DrawableSet {
    DrawableSet {
        foreground: Drawable::from("#FFFFFF"),
        background: Drawable::from("#222233"),
        black: Drawable::from("#000000"),
        red: Drawable::from("#AA0000"),
        green: Drawable::from("#00AA00"),
        yellow: Drawable::from("#AAAA00"),
        blue: Drawable::from("#0000AA"),
        magenta: Drawable::from("#AA00AA"),
        cyan: Drawable::from("#00AAAA"),
        white: Drawable::from("#AAAAAA"),
        bright_black: Drawable::from("#777777"),
        bright_red: Drawable::from("#FF0000"),
        bright_green: Drawable::from("#00FF00"),
        bright_yellow: Drawable::from("#FFFF00"),
        bright_blue: Drawable::from("#0000FF"),
        bright_magenta: Drawable::from("#FF00FF"),
        bright_cyan: Drawable::from("#00FFFF"),
        bright_white: Drawable::from("#FFFFFF"),
        warn,
        critical,
        dim,
    }
}

#[test]
fn precedence_classes_order() {
    // Buttons before hover; file changes and redraw requests between the
    // continuous buttons and hover; default last.
    let cont = Event::ButtonPressCont(Some(1)).precedence();
    let cont_any = Event::ButtonReleaseCont(None).precedence();
    let press = Event::ButtonPress(Some(1)).precedence();
    let file = Event::FileChanged(String::from("x")).precedence();
    let expose = Event::Expose.precedence();
    let hover = Event::Hover.precedence();
    let default = Event::Default.precedence();
    assert!(cont < file && cont_any < file && file < hover);
    assert!(cont < expose && expose < hover);
    assert!(press < hover);
    assert!(hover < default);
}

#[test]
fn sort_is_stable_and_total() {
    let v = vec![
        Event::Default,
        Event::Hover,
        Event::FileChanged(String::from("a")),
        Event::FileChanged(String::from("b")),
        Event::ButtonPress(Some(1)),
        Event::Expose,
    ];
    let sorted = sort_events(v);
    assert_eq!(
        sorted,
        vec![
            Event::ButtonPress(Some(1)),
            Event::FileChanged(String::from("a")),
            Event::FileChanged(String::from("b")),
            Event::Expose,
            Event::Hover,
            Event::Default,
        ]
    );
}

#[test]
fn resolve_falls_back_to_default() {
    // The default entry answers for any event set containing Default,
    // whatever the pointer position.
    let mut p: Prop<u64> = Prop::new_default(7);
    p.set(Event::Hover, 9);
    let events = vec![Event::Hover, Event::Default];
    assert_eq!(*p.get(&events, false), 7);
    assert_eq!(*p.get(&events, true), 9);
    let only_default = vec![Event::Default];
    assert_eq!(*p.get(&only_default, false), 7);
    assert_eq!(*p.get(&only_default, true), 7);
}

#[test]
fn mouse_dependent_events_excluded_when_outside() {
    // A mouse-dependent entry never answers while the pointer is outside,
    // wherever it stands in the active list.
    let mut p: Prop<&'static str> = Prop::new_default("plain");
    p.set(Event::ButtonPressCont(Some(1)), "pressed");
    p.set(Event::Hover, "hovered");
    let events = vec![
        Event::ButtonPressCont(Some(1)),
        Event::Hover,
        Event::Default,
    ];
    assert_eq!(*p.get(&events, false), "plain");
    assert!(p.get_event(&events, false) == Event::Default);
    assert_eq!(*p.get(&events, true), "pressed");
    assert!(event_eq(&p.get_event(&events, true), &Event::ButtonPressCont(Some(1))));
}

#[test]
fn human_readable_binary_units() {
    assert_eq!(human_readable(1536), "1.50Ki");
    assert_eq!(human_readable(100), "100.00");
    assert_eq!(human_readable(0), "0.00");
    assert_eq!(human_readable(3 * 1024 * 1024), "3.00Mi");
}

#[test]
fn human_readable_decimal_units() {
    assert_eq!(human_readable_p10(1500), "1.50K");
    assert_eq!(human_readable_p10(999), "999.00");
    assert_eq!(human_readable_p10(2_500_000), "2.50M");
}

#[test]
fn decimal_rendering() {
    assert_eq!(u64_to_string(0), "0");
    assert_eq!(u64_to_string(907), "907");
    assert_eq!(u64_to_string(u64::MAX), "18446744073709551615");
}

#[test]
fn reading_displayed_values() {
    // Values in thousandths: the magnitude suffixes count in decimal
    // thousands.
    assert_eq!(find_human_readable("42%"), Some(42_000));
    assert_eq!(find_human_readable("load: 0.75"), Some(750));
    assert_eq!(find_human_readable("1.50Ki"), Some(1_500_000));
    assert_eq!(find_human_readable("2.5G"), Some(2_500_000_000_000));
    assert_eq!(find_human_readable("no number"), None);
    assert_eq!(find_human_readable(""), None);
}

#[test]
fn split_and_find() {
    let parts = split_char("a;b;;c", ';');
    assert_eq!(parts, vec!["a", "b", "", "c"]);
    assert_eq!(split_char("", ';'), vec![""]);
    assert_eq!(find_char("abc.def", '.'), Some(3));
    assert_eq!(find_char("abcdef", '.'), None);
}

#[test]
fn color_parsing() {
    let c = Color::parse("#FF8000").unwrap();
    // Premultiplied by the implicit alpha 255: each channel scaled by
    // 255/256.
    assert_eq!(c, Color::new(254, 127, 0, 255));
    assert!(Color::parse("FF8000").is_none());
    assert!(Color::parse("#FF80").is_none());
    assert!(Color::parse("#GG0000").is_none());
}

#[test]
fn color_premultiply_alpha() {
    let c = Color::parse("#FFFFFF80").unwrap();
    assert_eq!(c, Color::new(127, 127, 127, 128));
}

#[test]
fn color_channels() {
    let c = Color::new(1, 2, 3, 4);
    assert_eq!(c.as_xcolor(), 0x04010203);
    assert_eq!(c.array(), [3, 2, 1, 4]);
    assert_eq!(c.get(0), 3);
    assert_eq!(c.get(3), 4);
}

#[test]
fn drawable_parsing() {
    match Drawable::parse("#000000") {
        Some(Drawable::Color(_)) => {},
        _ => panic!("expected a single color"),
    }
    match Drawable::parse("#000000;#FFFFFF") {
        Some(Drawable::VGradient(v)) => assert_eq!(v.len(), 2),
        _ => panic!("expected a gradient"),
    }
    assert!(Drawable::parse("#000000;oops").is_none());
}

#[test]
fn sgr_colors() {
    let ds = ds_with_thresholds(i64::MAX, i64::MAX, i64::MIN);
    // 16-color palette: 31 is red.
    let (d, isbg) = ds.sgrcolor(31, vec![]);
    assert!(!isbg);
    match d {
        Drawable::Color(c) => assert_eq!(c, Color::parse("#AA0000").unwrap()),
        _ => panic!("expected a color"),
    }
    // True color.
    let (d, _) = ds.sgrcolor(38, vec![2, 10, 20, 30]);
    match d {
        Drawable::Color(c) => assert_eq!(c, Color::new(10, 20, 30, 255)),
        _ => panic!("expected a color"),
    }
    // 256-color cube: 16 is black.
    let (d, _) = ds.sgrcolor(38, vec![5, 16]);
    match d {
        Drawable::Color(c) => assert_eq!(c, Color::new(0, 0, 0, 255)),
        _ => panic!("expected a color"),
    }
    // Grayscale ramp.
    let (d, _) = ds.sgrcolor(38, vec![5, 244]);
    match d {
        Drawable::Color(c) => assert_eq!(c.get(0), c.get(1)),
        _ => panic!("expected a color"),
    }
    // 48 addresses the background.
    let (_, isbg) = ds.sgrcolor(48, vec![5, 1]);
    assert!(isbg);
}

#[test]
fn mark_color_thresholds() {
    let ds = ds_with_thresholds(50_000, 90_000, 1_000);
    assert_eq!(ds.mark_color(None), "");
    assert_eq!(ds.mark_color(Some(95_000)), "\x1b[031m");
    assert_eq!(ds.mark_color(Some(60_000)), "\x1b[033m");
    assert_eq!(ds.mark_color(Some(500)), "\x1b[090m");
    assert_eq!(ds.mark_color(Some(10_000)), "");
}

#[test]
fn directions_and_geometry() {
    let d = Direction::parse("NW").unwrap();
    assert_eq!((d.xdir, d.ydir), (-1, -1));
    assert_eq!(Direction::parse("S").map(|d| (d.xdir, d.ydir)), Some((0, 1)));
    assert!(Direction::parse("X").is_none());
    assert!(Direction::parse("").is_none());

    let mut g = WindowGeometry::new();
    g.w = 100;
    g.h = 24;
    // Centered at the top of a 300x200 screen.
    let (x, y, w, h) = g.on_screen(300, 200);
    assert_eq!((x, y, w, h), (100, 0, 100, 24));
    assert!(g.has_point(150, 10, 300, 200));
    assert!(!g.has_point(150, 30, 300, 200));
    assert!(!g.has_point(50, 10, 300, 200));
    // A sub-rectangle 10 pixels in.
    assert!(g.has_point_cropped(115, 10, 300, 200, 10, 0, 20, 24));
    assert!(!g.has_point_cropped(105, 10, 300, 200, 10, 0, 20, 24));
}
