//! Colors and drawable fills, the SGR color palette of a widget, and the
//! threshold-based color marking of numeric output.

use vstd::prelude::*;
use crate::utils::{spec_split, split_char};

verus! {

/// An RGBA color with premultiplied channels.
#[derive(Clone, Copy, Debug, PartialEq, Eq, Structural)]
pub struct Color {
    pub r: u8,
    pub g: u8,
    pub b: u8,
    pub a: u8,
}

/// What a region can be filled with: one color or a vertical gradient.
#[derive(Debug)]
pub enum Drawable {
    Color(Color),
    VGradient(Vec<Color>),
}

/// The mathematical value of a drawable: its kind and color stops.
pub enum DrawableView {
    Color(Color),
    VGradient(Seq<Color>),
}

impl View for Drawable {
    type V = DrawableView;

    open spec fn view(&self) -> DrawableView {
        match self {
            Drawable::Color(c) => DrawableView::Color(*c),
            Drawable::VGradient(v) => DrawableView::VGradient(v@),
        }
    }
}

impl Clone for Drawable {
    fn clone(&self) -> (r: Self)
        ensures
            r@ == self@,
    {
        match self {
            Drawable::Color(c) => Drawable::Color(*c),
            Drawable::VGradient(v) => {
                let mut stops: Vec<Color> = Vec::new();
                let mut i: usize = 0;
                while i < v.len()
                    invariant
                        i <= v@.len(),
                        stops@ =~= v@.subrange(0, i as int),
                    decreases v@.len() - i,
                {
                    stops.push(v[i]);
                    i = i + 1;
                }
                proof {
                    assert(stops@ =~= v@);
                }
                Drawable::VGradient(stops)
            },
        }
    }
}

/// Whether a character is a hexadecimal digit.
pub open spec fn spec_is_hex(c: char) -> bool {
    ('0' <= c && c <= '9') || ('a' <= c && c <= 'f') || ('A' <= c && c <= 'F')
}

/// The value of a hexadecimal digit character.
pub open spec fn spec_hex_val(c: char) -> nat
    recommends
        spec_is_hex(c),
{
    if '0' <= c && c <= '9' {
        (c as nat - '0' as nat) as nat
    } else if 'a' <= c && c <= 'f' {
        (c as nat - 'a' as nat + 10) as nat
    } else if 'A' <= c && c <= 'F' {
        (c as nat - 'A' as nat + 10) as nat
    } else {
        0
    }
}

/// A well-formed color string: `#RRGGBB` or `#RRGGBBAA`.
pub open spec fn spec_color_wf(s: Seq<char>) -> bool {
    (s.len() == 7 || s.len() == 9) && s[0] == '#' && forall|i: int|
        1 <= i < s.len() ==> spec_is_hex(#[trigger] s[i])
}

/// The byte encoded by two hex digits at one position.
pub open spec fn spec_hex_byte(s: Seq<char>, i: int) -> nat {
    spec_hex_val(s[i]) * 16 + spec_hex_val(s[i + 1])
}

/// The color a well-formed color string denotes, with the color channels
/// premultiplied by the alpha channel.
pub open spec fn spec_color_from(s: Seq<char>) -> Color
    recommends
        spec_color_wf(s),
{
    let a = if s.len() == 9 {
        spec_hex_byte(s, 7)
    } else {
        255
    };
    Color {
        r: ((spec_hex_byte(s, 1) * a) / 256) as u8,
        g: ((spec_hex_byte(s, 3) * a) / 256) as u8,
        b: ((spec_hex_byte(s, 5) * a) / 256) as u8,
        a: a as u8,
    }
}

/// The value of a hexadecimal digit character, or nothing.
fn hex_val(c: char) -> (r: Option<u8>)
    ensures
        match r {
            Some(v) => spec_is_hex(c) && v == spec_hex_val(c) && v < 16,
            None => !spec_is_hex(c),
        },
{
    if '0' <= c && c <= '9' {
        Some((c as u8) - ('0' as u8))
    } else if 'a' <= c && c <= 'f' {
        Some((c as u8) - ('a' as u8) + 10)
    } else if 'A' <= c && c <= 'F' {
        Some((c as u8) - ('A' as u8) + 10)
    } else {
        None
    }
}

impl Color {
    /// A color from its four channels.
    pub fn new(r: u8, g: u8, b: u8, a: u8) -> (c: Self)
        ensures
            c == (Color { r, g, b, a }),
    {
        Self { r, g, b, a }
    }

    /// Parses a `#RRGGBB` or `#RRGGBBAA` string, or reports that the string
    /// is not a well-formed color.
    pub fn parse(s: &str) -> (r: Option<Color>)
        ensures
            match r {
                Some(c) => spec_color_wf(s@) && c == spec_color_from(s@),
                None => !spec_color_wf(s@),
            },
    {
        let n = s.unicode_len();
        if n != 7 && n != 9 {
            return None;
        }
        if s.get_char(0) != '#' {
            return None;
        }
        let mut digits: Vec<u8> = Vec::new();
        let mut i: usize = 1;
        while i < n
            invariant
                n == s@.len(),
                n == 7 || n == 9,
                1 <= i <= n,
                digits@.len() == i - 1,
                forall|k: int| 1 <= k < i ==> spec_is_hex(#[trigger] s@[k]),
                forall|k: int|
                    0 <= k < i - 1 ==> digits@[k] == spec_hex_val(s@[k + 1]) && digits@[k] < 16,
            decreases n - i,
        {
            match hex_val(s.get_char(i)) {
                Some(v) => digits.push(v),
                None => {
                    return None;
                },
            }
            i = i + 1;
        }
        proof {
            assert(digits@[0] < 16 && digits@[1] < 16 && digits@[2] < 16 && digits@[3] < 16
                && digits@[4] < 16 && digits@[5] < 16);
            if n == 9 {
                assert(digits@[6] < 16 && digits@[7] < 16);
            }
        }
        let a: u16 = if n == 9 {
            (digits[6] as u16) * 16 + (digits[7] as u16)
        } else {
            255
        };
        let rx = (digits[0] as u16) * 16 + (digits[1] as u16);
        let gx = (digits[2] as u16) * 16 + (digits[3] as u16);
        let bx = (digits[4] as u16) * 16 + (digits[5] as u16);
        proof {
            assert(rx * a <= 65025 && gx * a <= 65025 && bx * a <= 65025) by (nonlinear_arith)
                requires
                    rx <= 255,
                    gx <= 255,
                    bx <= 255,
                    a <= 255,
            ;
        }
        let r = (rx * a / 256) as u8;
        let g = (gx * a / 256) as u8;
        let b = (bx * a / 256) as u8;
        Some(Color { r, g, b, a: a as u8 })
    }

    /// The color a well-formed color string denotes.
    pub fn from(s: &str) -> (c: Color)
        requires
            spec_color_wf(s@),
        ensures
            c == spec_color_from(s@),
    {
        Color::parse(s).unwrap()
    }

    /// The color packed as an ARGB word.
    pub fn as_xcolor(&self) -> (r: u32)
        ensures
            r == self.a as u32 * 0x1000000 + self.r as u32 * 0x10000 + self.g as u32 * 0x100
                + self.b as u32,
    {
        let r = ((self.a as u32) << 24) | ((self.r as u32) << 16) | ((self.g as u32) << 8) | (
        self.b as u32);
        proof {
            let a = self.a;
            let rr = self.r;
            let g = self.g;
            let b = self.b;
            assert(((a as u32) << 24) | ((rr as u32) << 16) | ((g as u32) << 8) | (b as u32)
                == a as u32 * 0x1000000 + rr as u32 * 0x10000 + g as u32 * 0x100 + b as u32)
                by (bit_vector);
        }
        r
    }

    /// The channels in the order a drawing surface expects them.
    pub fn array(&self) -> (r: [u8; 4])
        ensures
            r@ =~= seq![self.b, self.g, self.r, self.a],
    {
        [self.b, self.g, self.r, self.a]
    }

    /// One channel of the surface-ordered form.
    pub fn get(&self, i: usize) -> (r: u8)
        requires
            i < 4,
        ensures
            r == seq![self.b, self.g, self.r, self.a][i as int],
    {
        let a = self.array();
        a[i]
    }
}

/// A well-formed drawable string: one or more well-formed color strings
/// separated by semicolons.
pub open spec fn spec_drawable_wf(s: Seq<char>) -> bool {
    forall|i: int| 0 <= i < spec_split(s, ';').len() ==> spec_color_wf(#[trigger] spec_split(
        s,
        ';',
    )[i])
}

/// The drawable a well-formed drawable string denotes: a single color, or a
/// vertical gradient through the listed colors.
pub open spec fn spec_drawable_from(s: Seq<char>) -> DrawableView
    recommends
        spec_drawable_wf(s),
{
    let parts = spec_split(s, ';');
    if parts.len() == 1 {
        DrawableView::Color(spec_color_from(parts[0]))
    } else {
        DrawableView::VGradient(Seq::new(parts.len(), |i: int| spec_color_from(parts[i])))
    }
}

impl Drawable {
    /// Parses a drawable string, or reports that it is not well formed.
    pub fn parse(s: &str) -> (r: Option<Drawable>)
        ensures
            match r {
                Some(d) => spec_drawable_wf(s@) && d@ == spec_drawable_from(s@),
                None => !spec_drawable_wf(s@),
            },
    {
        let parts = split_char(s, ';');
        let mut colors: Vec<Color> = Vec::new();
        let mut i: usize = 0;
        while i < parts.len()
            invariant
                parts@.len() == spec_split(s@, ';').len(),
                forall|k: int| 0 <= k < parts@.len() ==> parts@[k]@ == spec_split(s@, ';')[k],
                i <= parts@.len(),
                colors@.len() == i,
                forall|k: int| 0 <= k < i ==> spec_color_wf(#[trigger] spec_split(s@, ';')[k]),
                forall|k: int|
                    0 <= k < i ==> colors@[k] == spec_color_from(#[trigger] spec_split(s@, ';')[k]),
            decreases parts@.len() - i,
        {
            match Color::parse(parts[i].as_str()) {
                Some(c) => colors.push(c),
                None => {
                    proof {
                        assert(!spec_color_wf(spec_split(s@, ';')[i as int]));
                    }
                    return None;
                },
            }
            i = i + 1;
        }
        proof {
            crate::utils::lemma_split_nonempty(s@, ';');
        }
        if colors.len() == 1 {
            Some(Drawable::Color(colors[0]))
        } else {
            proof {
                assert(colors@ =~= Seq::new(
                    spec_split(s@, ';').len(),
                    |i: int| spec_color_from(spec_split(s@, ';')[i]),
                ));
            }
            Some(Drawable::VGradient(colors))
        }
    }

    /// The drawable a well-formed drawable string denotes.
    pub fn from(s: &str) -> (r: Drawable)
        requires
            spec_drawable_wf(s@),
        ensures
            r@ == spec_drawable_from(s@),
    {
        Drawable::parse(s).unwrap()
    }
}


/// The resolved palette of one widget: its foreground, background and the
/// sixteen base terminal colors, with the thresholds used to color-code
/// numeric output.  Threshold values are in thousandths.
pub struct DrawableSet {
    pub foreground: Drawable,
    pub background: Drawable,
    pub black: Drawable,
    pub red: Drawable,
    pub green: Drawable,
    pub yellow: Drawable,
    pub blue: Drawable,
    pub magenta: Drawable,
    pub cyan: Drawable,
    pub white: Drawable,
    pub bright_black: Drawable,
    pub bright_red: Drawable,
    pub bright_green: Drawable,
    pub bright_yellow: Drawable,
    pub bright_blue: Drawable,
    pub bright_magenta: Drawable,
    pub bright_cyan: Drawable,
    pub bright_white: Drawable,
    pub warn: i64,
    pub critical: i64,
    pub dim: i64,
}

/// The base color an SGR parameter selects: 30 to 37 pick the normal
/// colors, 90 to 97 the bright ones, anything else the widget's own
/// background or foreground.
pub open spec fn spec_basecolor(ds: DrawableSet, n: u32, isbackground: bool) -> DrawableView {
    if n == 30 {
        ds.black@
    } else if n == 31 {
        ds.red@
    } else if n == 32 {
        ds.green@
    } else if n == 33 {
        ds.yellow@
    } else if n == 34 {
        ds.blue@
    } else if n == 35 {
        ds.magenta@
    } else if n == 36 {
        ds.cyan@
    } else if n == 37 {
        ds.white@
    } else if n == 90 {
        ds.bright_black@
    } else if n == 91 {
        ds.bright_red@
    } else if n == 92 {
        ds.bright_green@
    } else if n == 93 {
        ds.bright_yellow@
    } else if n == 94 {
        ds.bright_blue@
    } else if n == 95 {
        ds.bright_magenta@
    } else if n == 96 {
        ds.bright_cyan@
    } else if n == 97 {
        ds.bright_white@
    } else if isbackground {
        ds.background@
    } else {
        ds.foreground@
    }
}

/// The color of one cell of the 6-by-6-by-6 palette cube.
pub open spec fn spec_cube_color(x: u32) -> Color
    recommends
        16 <= x < 232,
{
    let r = (x - 16) / 36;
    let g = ((x - 16) / 6) % 6;
    let b = (x - 16) % 6;
    Color { r: (r * 256 / 6) as u8, g: (g * 256 / 6) as u8, b: (b * 256 / 6) as u8, a: 255u8 }
}

/// The gray of the 24-step grayscale ramp; out-of-range steps wrap as a
/// byte does.
pub open spec fn spec_gray_color(x: u32) -> Color {
    let v = ((x - 232) * 256 / 24) as u8;
    Color { r: v, g: v, b: v, a: 255u8 }
}

/// The drawable an SGR color-selection sequence selects, and whether it
/// addresses the background.
pub open spec fn spec_sgrcolor(ds: DrawableSet, n: u32, params: Seq<u32>) -> (DrawableView, bool) {
    let isbackground = (n / 10) % 2 == 0;
    let d = if n % 10 == 8 {
        if params.len() >= 1 && params[0] == 2 {
            if params.len() >= 4 {
                DrawableView::Color(
                    Color {
                        r: params[1] as u8,
                        g: params[2] as u8,
                        b: params[3] as u8,
                        a: 255u8,
                    },
                )
            } else {
                spec_basecolor(ds, 39, isbackground)
            }
        } else if params.len() >= 1 && params[0] == 5 {
            if params.len() >= 2 {
                let x = params[1];
                if x < 8 {
                    spec_basecolor(ds, (x + 30) as u32, isbackground)
                } else if x < 16 {
                    spec_basecolor(ds, (x + 90) as u32, isbackground)
                } else if x < 232 {
                    DrawableView::Color(spec_cube_color(x))
                } else {
                    DrawableView::Color(spec_gray_color(x))
                }
            } else {
                spec_basecolor(ds, 39, isbackground)
            }
        } else {
            spec_basecolor(ds, 39, isbackground)
        }
    } else {
        spec_basecolor(ds, n, isbackground)
    };
    (d, isbackground)
}

/// The marker prepended to a widget's text to color-code its numeric value:
/// red at or above the critical threshold, yellow at or above the warning
/// threshold, gray at or below the dim threshold.  Thresholds and value are
/// in thousandths.
pub open spec fn spec_mark_color(ds: DrawableSet, value: Option<i64>) -> Seq<char> {
    match value {
        None => ""@,
        Some(x) => if x >= ds.critical {
            "\x1b[031m"@
        } else if x >= ds.warn {
            "\x1b[033m"@
        } else if x <= ds.dim {
            "\x1b[090m"@
        } else {
            ""@
        },
    }
}

impl DrawableSet {
    /// The drawable an SGR color-selection sequence selects, and whether it
    /// addresses the background.  `n` is the lead parameter (30 to 49, 90
    /// to 107); `params` are the remaining parameters of the sequence.
    pub fn sgrcolor(&self, n: u32, params: Vec<u32>) -> (r: (Drawable, bool))
        ensures
            (r.0@, r.1) == spec_sgrcolor(*self, n, params@),
    {
        let isbackground = (n / 10) % 2 == 0;
        let drawable = if n % 10 == 8 {
            if params.len() >= 1 && params[0] == 2 {
                if params.len() >= 4 {
                    let r = #[verifier::truncate] (params[1] as u8);
                    let g = #[verifier::truncate] (params[2] as u8);
                    let b = #[verifier::truncate] (params[3] as u8);
                    Drawable::Color(Color { r, g, b, a: 255 })
                } else {
                    self.basecolor(39, isbackground)
                }
            } else if params.len() >= 1 && params[0] == 5 {
                if params.len() >= 2 {
                    let x = params[1];
                    if x < 8 {
                        self.basecolor(x + 30, isbackground)
                    } else if x < 16 {
                        self.basecolor(x + 90, isbackground)
                    } else if x < 232 {
                        let r = (x - 16) / 36;
                        let g = ((x - 16) / 6) % 6;
                        let b = (x - 16) % 6;
                        Drawable::Color(
                            Color {
                                r: (r * 256 / 6) as u8,
                                g: (g * 256 / 6) as u8,
                                b: (b * 256 / 6) as u8,
                                a: 255,
                            },
                        )
                    } else {
                        let v = #[verifier::truncate] (((x as u64 - 232) * 256 / 24) as u8);
                        proof {
                            assert(((x as u64 - 232) * 256 / 24) as u8 == ((x - 232) * 256
                                / 24) as u8);
                        }
                        Drawable::Color(Color { r: v, g: v, b: v, a: 255 })
                    }
                } else {
                    self.basecolor(39, isbackground)
                }
            } else {
                self.basecolor(39, isbackground)
            }
        } else {
            self.basecolor(n, isbackground)
        };
        (drawable, isbackground)
    }

    /// The base color an SGR parameter selects.
    pub fn basecolor(&self, n: u32, isbackground: bool) -> (r: Drawable)
        ensures
            r@ == spec_basecolor(*self, n, isbackground),
    {
        if n == 30 {
            self.black.clone()
        } else if n == 31 {
            self.red.clone()
        } else if n == 32 {
            self.green.clone()
        } else if n == 33 {
            self.yellow.clone()
        } else if n == 34 {
            self.blue.clone()
        } else if n == 35 {
            self.magenta.clone()
        } else if n == 36 {
            self.cyan.clone()
        } else if n == 37 {
            self.white.clone()
        } else if n == 90 {
            self.bright_black.clone()
        } else if n == 91 {
            self.bright_red.clone()
        } else if n == 92 {
            self.bright_green.clone()
        } else if n == 93 {
            self.bright_yellow.clone()
        } else if n == 94 {
            self.bright_blue.clone()
        } else if n == 95 {
            self.bright_magenta.clone()
        } else if n == 96 {
            self.bright_cyan.clone()
        } else if n == 97 {
            self.bright_white.clone()
        } else if isbackground {
            self.background.clone()
        } else {
            self.foreground.clone()
        }
    }

    /// The marker prepended to a widget's text to color-code its numeric
    /// value, if one was recognized in it.  Value in thousandths.
    pub fn mark_color(&self, value: Option<i64>) -> (r: &str)
        ensures
            r@ == spec_mark_color(*self, value),
    {
        match value {
            None => "",
            Some(x) => if x >= self.critical {
                "\x1b[031m"
            } else if x >= self.warn {
                "\x1b[033m"
            } else if x <= self.dim {
                "\x1b[090m"
            } else {
                ""
            },
        }
    }
}

/// A single well-formed color string is a well-formed drawable denoting
/// that color alone: no hex digit is a separator.
pub proof fn lemma_color_is_drawable(s: Seq<char>)
    requires
        spec_color_wf(s),
    ensures
        spec_drawable_wf(s),
        spec_drawable_from(s) == DrawableView::Color(spec_color_from(s)),
{
    assert(forall|i: int| 0 <= i < s.len() ==> s[i] != ';');
    crate::utils::lemma_split_no_sep(s, ';');
    assert(spec_split(s, ';')[0] == s);
}

/// Compares two drawables by value: same kind and same color stops.
pub fn drawable_eq(a: &Drawable, b: &Drawable) -> (r: bool)
    ensures
        r == (a@ == b@),
{
    match (a, b) {
        (Drawable::Color(x), Drawable::Color(y)) => x == y,
        (Drawable::VGradient(x), Drawable::VGradient(y)) => {
            if x.len() != y.len() {
                proof {
                    assert(a@ != b@);
                }
                return false;
            }
            let mut i: usize = 0;
            while i < x.len()
                invariant
                    a@ == DrawableView::VGradient(x@),
                    b@ == DrawableView::VGradient(y@),
                    x@.len() == y@.len(),
                    i <= x@.len(),
                    forall|k: int| 0 <= k < i ==> x@[k] == y@[k],
                decreases x@.len() - i,
            {
                if !(x[i] == y[i]) {
                    proof {
                        assert(x@[i as int] != y@[i as int]);
                        assert(x@ != y@);
                        assert(a@ != b@);
                    }
                    return false;
                }
                i = i + 1;
            }
            proof {
                assert(x@ =~= y@);
            }
            true
        },
        _ => {
            proof {
                assert(a@ != b@);
            }
            false
        },
    }
}


impl DrawableSet {
    /// The palette a widget's resolved snapshot denotes.
    pub fn from(props: &crate::props::WidgetPropsCurrent) -> (r: DrawableSet)
        ensures
            r.foreground@ == props.foreground@,
            r.background@ == props.background@,
            r.black@ == props.black@,
            r.red@ == props.red@,
            r.green@ == props.green@,
            r.yellow@ == props.yellow@,
            r.blue@ == props.blue@,
            r.magenta@ == props.magenta@,
            r.cyan@ == props.cyan@,
            r.white@ == props.white@,
            r.bright_black@ == props.bright_black@,
            r.bright_red@ == props.bright_red@,
            r.bright_green@ == props.bright_green@,
            r.bright_yellow@ == props.bright_yellow@,
            r.bright_blue@ == props.bright_blue@,
            r.bright_magenta@ == props.bright_magenta@,
            r.bright_cyan@ == props.bright_cyan@,
            r.bright_white@ == props.bright_white@,
            r.warn == props.warn,
            r.critical == props.critical,
            r.dim == props.dim,
    {
        DrawableSet {
            foreground: props.foreground.clone(),
            background: props.background.clone(),
            black: props.black.clone(),
            red: props.red.clone(),
            green: props.green.clone(),
            yellow: props.yellow.clone(),
            blue: props.blue.clone(),
            magenta: props.magenta.clone(),
            cyan: props.cyan.clone(),
            white: props.white.clone(),
            bright_black: props.bright_black.clone(),
            bright_red: props.bright_red.clone(),
            bright_green: props.bright_green.clone(),
            bright_yellow: props.bright_yellow.clone(),
            bright_blue: props.bright_blue.clone(),
            bright_magenta: props.bright_magenta.clone(),
            bright_cyan: props.bright_cyan.clone(),
            bright_white: props.bright_white.clone(),
            warn: props.warn,
            critical: props.critical,
            dim: props.dim,
        }
    }
}
} // verus!
