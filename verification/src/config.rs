//! Configuration input: the already-parsed per-event property maps a bar
//! and its widgets are built from, and the construction of the resolved
//! property sets.  The cascade of templates and defaults is merged before
//! values reach this module; reading the configuration file itself is the
//! driver's business.

use vstd::prelude::*;
use crate::command::{Command, ConfigError, RawValue, new_command};
use crate::event::{Event, EventListeners};
use crate::props::{BarProps, Prop, WidgetProps, spec_bar_props_wf, spec_widget_props_wf};
use crate::utils::{find_char, lemma_find_char, split_char};
use crate::window::Direction;

verus! {

/// Relies on `dirs::config_dir`: the user's configuration directory as a
/// plain path string, where the environment defines one.
#[verifier::external_body]
fn user_config_dir() -> Option<String> {
    dirs::config_dir().map(|p| p.to_string_lossy().into_owned())
}

/// The bar's configuration directory: the bar's own directory under the
/// user's configuration directory, where the environment defines one.
pub fn config_dir() -> (r: Option<String>) {
    proof {
        reveal_strlit("ravenbar");
    }
    match user_config_dir() {
        Some(base) => {
            let mut d = base;
            d.push('/');
            d.append("ravenbar");
            Some(d)
        },
        None => None,
    }
}

/// The raw, per-event property values of one widget, as the configuration
/// names them.  Threshold values are in thousandths, the border factor in
/// thousandths of the bar height, the interval in milliseconds.
#[derive(Debug)]
pub struct BarConfigWidgetProps {
    pub foreground: Option<String>,
    pub background: Option<String>,
    pub black: Option<String>,
    pub red: Option<String>,
    pub green: Option<String>,
    pub yellow: Option<String>,
    pub blue: Option<String>,
    pub magenta: Option<String>,
    pub cyan: Option<String>,
    pub white: Option<String>,
    pub bright_black: Option<String>,
    pub bright_red: Option<String>,
    pub bright_green: Option<String>,
    pub bright_yellow: Option<String>,
    pub bright_blue: Option<String>,
    pub bright_magenta: Option<String>,
    pub bright_cyan: Option<String>,
    pub bright_white: Option<String>,
    pub warn: Option<i64>,
    pub critical: Option<i64>,
    pub dim: Option<i64>,
    pub font: Option<String>,
    pub command: Option<RawValue>,
    pub action: Option<RawValue>,
    pub border_factor: Option<u32>,
    pub interval: Option<u64>,
}

/// The raw, per-event bar-level property values.
#[derive(Debug)]
pub struct BarConfigProps {
    pub alignment: Option<String>,
    pub height: Option<u16>,
    pub screenwidth: Option<u32>,
    pub xoff: Option<i16>,
    pub yoff: Option<i16>,
    pub solid: Option<bool>,
    pub above: Option<bool>,
    pub below: Option<bool>,
    pub visible: Option<bool>,
}

/// One widget's configuration: its per-event raw properties, keyed by the
/// event name and its settings.
#[derive(Debug)]
pub struct BarConfigWidget {
    pub properties: Vec<((String, String), BarConfigWidgetProps)>,
}

/// The whole bar's configuration: its per-event raw properties, the
/// widgets of both flows, and the background between them.
#[derive(Debug)]
pub struct BarConfig {
    pub properties: Vec<((String, String), BarConfigProps)>,
    pub widgets_left: Vec<BarConfigWidget>,
    pub widgets_right: Vec<BarConfigWidget>,
    pub default_bg: String,
}

/// What a dotted configuration key splits into: the property name, the
/// event name (or `default`), and the event's settings (or empty).
pub open spec fn spec_split_key(key: Seq<char>) -> (Seq<char>, Seq<char>, Seq<char>) {
    match crate::utils::spec_find_char(key, '.') {
        None => (key, "default"@, ""@),
        Some(i) => {
            let rest = key.skip(i + 1);
            match crate::utils::spec_find_char(rest, '.') {
                None => (key.take(i), rest, ""@),
                Some(j) => (key.take(i), rest.take(j), rest.skip(j + 1)),
            }
        },
    }
}

/// Splits a dotted configuration key into property name, event name and
/// event settings: `command.on_press.left` names the `command` property
/// under the `on_press` event with settings `left`.
pub fn split_key(key: &String) -> (r: (String, String, String))
    ensures
        (r.0@, r.1@, r.2@) == spec_split_key(key@),
{
    proof {
        reveal_strlit("default");
        reveal_strlit("");
        lemma_find_char(key@, '.');
    }
    let s = key.as_str();
    let n = s.unicode_len();
    match find_char(s, '.') {
        None => (key.clone(), String::from_str("default"), String::new()),
        Some(i) => {
            let property = String::from_str(s.substring_char(0, i));
            let rest = s.substring_char(i + 1, n);
            proof {
                lemma_find_char(key@.skip(i + 1), '.');
            }
            let restn = rest.unicode_len();
            match find_char(rest, '.') {
                None => (property, String::from_str(rest), String::new()),
                Some(j) => (
                    property,
                    String::from_str(rest.substring_char(0, j)),
                    String::from_str(rest.substring_char(j + 1, restn)),
                ),
            }
        },
    }
}

impl BarConfigWidget {
    /// A widget configuration with nothing set.
    pub fn new() -> (r: Self)
        ensures
            r.properties@.len() == 0,
    {
        Self { properties: Vec::new() }
    }
}

/// Whether a configured event name with its settings reads as an event
/// against the defined state machines: the fixed names read always; the
/// button names need a readable button word; a state membership needs a
/// `machine=state` pair naming a defined machine and state.
pub open spec fn spec_event_readable(
    name: Seq<char>,
    settings: Seq<char>,
    states: crate::command::state::StateSingleton,
) -> bool {
    ||| name == "default"@
    ||| name == "on_hover"@
    ||| name == "on_file_changed"@
    ||| ((name == "on_press"@ || name == "on_press_cont"@ || name == "on_release"@ || name
        == "on_release_cont"@) && crate::event::window::spec_mouse_button(settings) is Some)
    ||| (name == "on_state"@ && match crate::utils::spec_find_char(settings, '=') {
        None => false,
        Some(j) => match crate::command::state::spec_find_machine(
            states.machines@,
            settings.take(j),
        ) {
            None => false,
            Some(mi) => match crate::command::state::spec_find_state(
                states.machines@[mi].states@,
                settings.skip(j + 1),
            ) {
                None => false,
                Some(k) => k <= i32::MAX,
            },
        },
    })
}

/// Whether one widget configuration entry is readable: its event reads,
/// its colors are well-formed, and its command and action parse.
pub open spec fn spec_widget_entry_ok(
    entry: ((String, String), BarConfigWidgetProps),
    states: crate::command::state::StateSingleton,
) -> bool {
    &&& spec_event_readable(entry.0.0@, entry.0.1@, states)
    &&& (entry.1.foreground matches Some(v) ==> crate::draw::spec_drawable_wf(v@))
    &&& (entry.1.background matches Some(v) ==> crate::draw::spec_drawable_wf(v@))
    &&& (entry.1.black matches Some(v) ==> crate::draw::spec_drawable_wf(v@))
    &&& (entry.1.red matches Some(v) ==> crate::draw::spec_drawable_wf(v@))
    &&& (entry.1.green matches Some(v) ==> crate::draw::spec_drawable_wf(v@))
    &&& (entry.1.yellow matches Some(v) ==> crate::draw::spec_drawable_wf(v@))
    &&& (entry.1.blue matches Some(v) ==> crate::draw::spec_drawable_wf(v@))
    &&& (entry.1.magenta matches Some(v) ==> crate::draw::spec_drawable_wf(v@))
    &&& (entry.1.cyan matches Some(v) ==> crate::draw::spec_drawable_wf(v@))
    &&& (entry.1.white matches Some(v) ==> crate::draw::spec_drawable_wf(v@))
    &&& (entry.1.bright_black matches Some(v) ==> crate::draw::spec_drawable_wf(v@))
    &&& (entry.1.bright_red matches Some(v) ==> crate::draw::spec_drawable_wf(v@))
    &&& (entry.1.bright_green matches Some(v) ==> crate::draw::spec_drawable_wf(v@))
    &&& (entry.1.bright_yellow matches Some(v) ==> crate::draw::spec_drawable_wf(v@))
    &&& (entry.1.bright_blue matches Some(v) ==> crate::draw::spec_drawable_wf(v@))
    &&& (entry.1.bright_magenta matches Some(v) ==> crate::draw::spec_drawable_wf(v@))
    &&& (entry.1.bright_cyan matches Some(v) ==> crate::draw::spec_drawable_wf(v@))
    &&& (entry.1.bright_white matches Some(v) ==> crate::draw::spec_drawable_wf(v@))
    &&& (entry.1.command matches Some(v) ==> crate::command::spec_parseable(v))
    &&& (entry.1.action matches Some(v) ==> crate::command::spec_parseable(v))
}

/// Whether one bar configuration entry is readable: its event reads and
/// its alignment is a well-formed direction.
pub open spec fn spec_bar_entry_ok(
    entry: ((String, String), BarConfigProps),
    states: crate::command::state::StateSingleton,
) -> bool {
    &&& spec_event_readable(entry.0.0@, entry.0.1@, states)
    &&& (entry.1.alignment matches Some(v) ==> crate::window::spec_direction_wf(v@))
}

/// One built-in default color.
fn default_color(s: &str) -> (r: crate::draw::Drawable)
    requires
        crate::draw::spec_color_wf(s@),
    ensures
        r@ == crate::draw::DrawableView::Color(crate::draw::spec_color_from(s@)),
{
    proof {
        crate::draw::lemma_color_is_drawable(s@);
    }
    crate::draw::Drawable::from(s)
}

/// Builds one widget's resolved property set from its per-event raw
/// values: every property starts from its built-in default, and each
/// configured event adds its entry, shadowing earlier ones.  An
/// unreadable color, command or event name is a configuration error.
#[verifier::rlimit(100)]
#[verifier::spinoff_prover]
pub fn widget_props_from(
    config: &BarConfigWidget,
    listeners: &mut EventListeners,
    states: &crate::command::state::StateSingleton,
    workdir: &Option<String>,
    file_baseline: u64,
) -> (r: Result<WidgetProps, ConfigError>)
    ensures
        r matches Ok(p) ==> spec_widget_props_wf(p),
        r is Ok <==> forall|i: int|
            0 <= i < config.properties@.len() ==> spec_widget_entry_ok(
                #[trigger] config.properties@[i],
                *states,
            ),
{
    proof {
        reveal_strlit("#FFFFFF");
        reveal_strlit("#222233");
        reveal_strlit("#000000");
        reveal_strlit("#AA0000");
        reveal_strlit("#00AA00");
        reveal_strlit("#AAAA00");
        reveal_strlit("#0000AA");
        reveal_strlit("#AA00AA");
        reveal_strlit("#00AAAA");
        reveal_strlit("#AAAAAA");
        reveal_strlit("#777777");
        reveal_strlit("#FF0000");
        reveal_strlit("#00FF00");
        reveal_strlit("#FFFF00");
        reveal_strlit("#0000FF");
        reveal_strlit("#FF00FF");
        reveal_strlit("#00FFFF");
        reveal_strlit("default");
    }
    let mut p = WidgetProps {
        foreground: Prop::new_default(default_color("#FFFFFF")),
        background: Prop::new_default(default_color("#222233")),
        black: Prop::new_default(default_color("#000000")),
        red: Prop::new_default(default_color("#AA0000")),
        green: Prop::new_default(default_color("#00AA00")),
        yellow: Prop::new_default(default_color("#AAAA00")),
        blue: Prop::new_default(default_color("#0000AA")),
        magenta: Prop::new_default(default_color("#AA00AA")),
        cyan: Prop::new_default(default_color("#00AAAA")),
        white: Prop::new_default(default_color("#AAAAAA")),
        bright_black: Prop::new_default(default_color("#777777")),
        bright_red: Prop::new_default(default_color("#FF0000")),
        bright_green: Prop::new_default(default_color("#00FF00")),
        bright_yellow: Prop::new_default(default_color("#FFFF00")),
        bright_blue: Prop::new_default(default_color("#0000FF")),
        bright_magenta: Prop::new_default(default_color("#FF00FF")),
        bright_cyan: Prop::new_default(default_color("#00FFFF")),
        bright_white: Prop::new_default(default_color("#FFFFFF")),
        warn: Prop::new_default(i64::MAX),
        critical: Prop::new_default(i64::MAX),
        dim: Prop::new_default(i64::MIN),
        font: Prop::new_default(String::from_str("default")),
        command: Prop::new_default(Command::Empty(crate::command::common::NoneCommand)),
        action: Prop::new_default(Command::Empty(crate::command::common::NoneCommand)),
        border_factor: Prop::new_default(750u32),
        interval: Prop::new_default(5000u64),
    };
    let n = config.properties.len();
    let mut i: usize = 0;
    while i < n
        invariant
            n == config.properties@.len(),
            i <= n,
            spec_widget_props_wf(p),
            forall|k: int|
                0 <= k < i ==> spec_widget_entry_ok(#[trigger] config.properties@[k], *states),
        decreases n - i,
    {
        let entry = &config.properties[i];
        let e = match listeners.event(&entry.0.0, &entry.0.1, states, workdir, file_baseline) {
            Some(e) => e,
            None => {
                proof {
                    assert(!spec_event_readable(entry.0.0@, entry.0.1@, *states));
                    assert(!spec_widget_entry_ok(config.properties@[i as int], *states));
                }
                return Err(ConfigError(String::from_str("unknown event name in configuration")));
            },
        };
        proof {
            assert(spec_event_readable(entry.0.0@, entry.0.1@, *states));
        }
        match apply_widget_entry(&mut p, &e, &entry.1) {
            Ok(u) => u,
            Err(err) => {
                proof {
                    assert(!spec_widget_entry_ok(config.properties@[i as int], *states));
                }
                return Err(err);
            },
        }
        proof {
            assert(spec_widget_entry_ok(config.properties@[i as int], *states));
        }
        i = i + 1;
    }
    Ok(p)
}

/// Applies one optional raw color onto one color property for an event,
/// or reports it unreadable.
fn set_color(
    prop: &mut crate::props::Prop<crate::draw::Drawable>,
    e: &Event,
    v: &Option<String>,
) -> (r: Result<(), ConfigError>)
    requires
        crate::props::spec_has_default(old(prop).pairs@),
    ensures
        crate::props::spec_has_default(final(prop).pairs@),
        r is Ok <==> (v matches Some(s) ==> crate::draw::spec_drawable_wf(s@)),
{
    if let Some(text) = v {
        match crate::draw::Drawable::parse(text.as_str()) {
            Some(d) => {
                prop.set(e.clone(), d);
                Ok(())
            },
            None => Err(ConfigError(String::from_str("unreadable color"))),
        }
    } else {
        Ok(())
    }
}

/// Applies one entry's raw values onto the property set for its event,
/// or reports the first unreadable value.
#[verifier::rlimit(100)]
#[verifier::spinoff_prover]
fn apply_widget_entry(
    p: &mut WidgetProps,
    e: &Event,
    raw: &BarConfigWidgetProps,
) -> (r: Result<(), ConfigError>)
    requires
        spec_widget_props_wf(*old(p)),
    ensures
        spec_widget_props_wf(*final(p)),
        r is Ok <==> ({
            &&& (raw.foreground matches Some(v) ==> crate::draw::spec_drawable_wf(v@))
            &&& (raw.background matches Some(v) ==> crate::draw::spec_drawable_wf(v@))
            &&& (raw.black matches Some(v) ==> crate::draw::spec_drawable_wf(v@))
            &&& (raw.red matches Some(v) ==> crate::draw::spec_drawable_wf(v@))
            &&& (raw.green matches Some(v) ==> crate::draw::spec_drawable_wf(v@))
            &&& (raw.yellow matches Some(v) ==> crate::draw::spec_drawable_wf(v@))
            &&& (raw.blue matches Some(v) ==> crate::draw::spec_drawable_wf(v@))
            &&& (raw.magenta matches Some(v) ==> crate::draw::spec_drawable_wf(v@))
            &&& (raw.cyan matches Some(v) ==> crate::draw::spec_drawable_wf(v@))
            &&& (raw.white matches Some(v) ==> crate::draw::spec_drawable_wf(v@))
            &&& (raw.bright_black matches Some(v) ==> crate::draw::spec_drawable_wf(v@))
            &&& (raw.bright_red matches Some(v) ==> crate::draw::spec_drawable_wf(v@))
            &&& (raw.bright_green matches Some(v) ==> crate::draw::spec_drawable_wf(v@))
            &&& (raw.bright_yellow matches Some(v) ==> crate::draw::spec_drawable_wf(v@))
            &&& (raw.bright_blue matches Some(v) ==> crate::draw::spec_drawable_wf(v@))
            &&& (raw.bright_magenta matches Some(v) ==> crate::draw::spec_drawable_wf(v@))
            &&& (raw.bright_cyan matches Some(v) ==> crate::draw::spec_drawable_wf(v@))
            &&& (raw.bright_white matches Some(v) ==> crate::draw::spec_drawable_wf(v@))
            &&& (raw.command matches Some(v) ==> crate::command::spec_parseable(v))
            &&& (raw.action matches Some(v) ==> crate::command::spec_parseable(v))
        }),
{
        if let Err(err) = set_color(&mut p.foreground, e, &raw.foreground) {
            return Err(err);
        }
        if let Err(err) = set_color(&mut p.background, e, &raw.background) {
            return Err(err);
        }
        if let Err(err) = set_color(&mut p.black, e, &raw.black) {
            return Err(err);
        }
        if let Err(err) = set_color(&mut p.red, e, &raw.red) {
            return Err(err);
        }
        if let Err(err) = set_color(&mut p.green, e, &raw.green) {
            return Err(err);
        }
        if let Err(err) = set_color(&mut p.yellow, e, &raw.yellow) {
            return Err(err);
        }
        if let Err(err) = set_color(&mut p.blue, e, &raw.blue) {
            return Err(err);
        }
        if let Err(err) = set_color(&mut p.magenta, e, &raw.magenta) {
            return Err(err);
        }
        if let Err(err) = set_color(&mut p.cyan, e, &raw.cyan) {
            return Err(err);
        }
        if let Err(err) = set_color(&mut p.white, e, &raw.white) {
            return Err(err);
        }
        if let Err(err) = set_color(&mut p.bright_black, e, &raw.bright_black) {
            return Err(err);
        }
        if let Err(err) = set_color(&mut p.bright_red, e, &raw.bright_red) {
            return Err(err);
        }
        if let Err(err) = set_color(&mut p.bright_green, e, &raw.bright_green) {
            return Err(err);
        }
        if let Err(err) = set_color(&mut p.bright_yellow, e, &raw.bright_yellow) {
            return Err(err);
        }
        if let Err(err) = set_color(&mut p.bright_blue, e, &raw.bright_blue) {
            return Err(err);
        }
        if let Err(err) = set_color(&mut p.bright_magenta, e, &raw.bright_magenta) {
            return Err(err);
        }
        if let Err(err) = set_color(&mut p.bright_cyan, e, &raw.bright_cyan) {
            return Err(err);
        }
        if let Err(err) = set_color(&mut p.bright_white, e, &raw.bright_white) {
            return Err(err);
        }
        if let Some(v) = &raw.warn {
            p.warn.set(e.clone(), *v);
        }
        if let Some(v) = &raw.critical {
            p.critical.set(e.clone(), *v);
        }
        if let Some(v) = &raw.dim {
            p.dim.set(e.clone(), *v);
        }
        if let Some(v) = &raw.font {
            p.font.set(e.clone(), v.clone());
        }
        if let Some(v) = &raw.command {
            match new_command(v) {
                Ok(c) => p.command.set(e.clone(), c),
                Err(err) => {
                    return Err(err);
                },
            }
        }
        if let Some(v) = &raw.action {
            match new_command(v) {
                Ok(c) => p.action.set(e.clone(), c),
                Err(err) => {
                    return Err(err);
                },
            }
        }
        if let Some(v) = &raw.border_factor {
            p.border_factor.set(e.clone(), *v);
        }
        if let Some(v) = &raw.interval {
            p.interval.set(e.clone(), *v);
        }
    Ok(())
}

/// Builds the bar-level resolved property set from its per-event raw
/// values, as `widget_props_from` does for a widget.
pub fn bar_props_from(
    config: &Vec<((String, String), BarConfigProps)>,
    listeners: &mut EventListeners,
    states: &crate::command::state::StateSingleton,
    workdir: &Option<String>,
    file_baseline: u64,
) -> (r: Result<BarProps, ConfigError>)
    ensures
        r matches Ok(p) ==> spec_bar_props_wf(p),
        r is Ok <==> forall|i: int|
            0 <= i < config@.len() ==> spec_bar_entry_ok(#[trigger] config@[i], *states),
{
    proof {
        reveal_strlit("N");
    }
    let mut p = BarProps {
        alignment: Prop::new_default(Direction::from("N")),
        height: Prop::new_default(24u16),
        screenwidth: Prop::new_default(1000u32),
        xoff: Prop::new_default(0i16),
        yoff: Prop::new_default(0i16),
        solid: Prop::new_default(true),
        above: Prop::new_default(false),
        below: Prop::new_default(false),
        visible: Prop::new_default(true),
    };
    let n = config.len();
    let mut i: usize = 0;
    while i < n
        invariant
            n == config@.len(),
            i <= n,
            spec_bar_props_wf(p),
            forall|k: int| 0 <= k < i ==> spec_bar_entry_ok(#[trigger] config@[k], *states),
        decreases n - i,
    {
        let entry = &config[i];
        let e = match listeners.event(&entry.0.0, &entry.0.1, states, workdir, file_baseline) {
            Some(e) => e,
            None => {
                proof {
                    assert(!spec_event_readable(entry.0.0@, entry.0.1@, *states));
                    assert(!spec_bar_entry_ok(config@[i as int], *states));
                }
                return Err(ConfigError(String::from_str("unknown event name in configuration")));
            },
        };
        proof {
            assert(spec_event_readable(entry.0.0@, entry.0.1@, *states));
        }
        let raw = &entry.1;
        if let Some(v) = &raw.alignment {
            match Direction::parse(v.as_str()) {
                Some(d) => {
                    let ghost pairs0 = p.alignment.pairs@;
                    p.alignment.set(e.clone(), d);
                    proof {
                        assert(p.alignment.pairs@[0].1 == d);
                        assert(forall|j: int|
                            1 <= j < p.alignment.pairs@.len() ==> #[trigger] p.alignment.pairs@[j]
                                == pairs0[j - 1]);
                    }
                },
                None => {
                    return Err(ConfigError(String::from_str("unreadable direction")));
                },
            }
        }
        if let Some(v) = &raw.height {
            p.height.set(e.clone(), *v);
        }
        if let Some(v) = &raw.screenwidth {
            p.screenwidth.set(e.clone(), *v);
        }
        if let Some(v) = &raw.xoff {
            p.xoff.set(e.clone(), *v);
        }
        if let Some(v) = &raw.yoff {
            p.yoff.set(e.clone(), *v);
        }
        if let Some(v) = &raw.solid {
            p.solid.set(e.clone(), *v);
        }
        if let Some(v) = &raw.above {
            p.above.set(e.clone(), *v);
        }
        if let Some(v) = &raw.below {
            p.below.set(e.clone(), *v);
        }
        if let Some(v) = &raw.visible {
            p.visible.set(e.clone(), *v);
        }
        proof {
            assert(spec_bar_entry_ok(config@[i as int], *states));
        }
        i = i + 1;
    }
    Ok(p)
}

} // verus!
