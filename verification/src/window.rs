//! Window geometry: where the bar stands on the screen, and the point
//! containment tests that drive hover and button events.

use vstd::prelude::*;

verus! {

/// Which screen edge or center the bar is anchored to, one axis each:
/// -1 is left or top, 0 centered, 1 right or bottom.
#[derive(Clone, Copy, Debug, PartialEq, Eq, Structural)]
pub struct Direction {
    pub xdir: i8,
    pub ydir: i8,
}

/// The bar window's requested geometry: anchor, offsets, size and the
/// window-manager flags.
#[derive(Clone, Copy, Debug, PartialEq, Eq, Structural)]
pub struct WindowGeometry {
    pub dir: Direction,
    pub xoff: i16,
    pub yoff: i16,
    pub w: u16,
    pub h: u16,
    pub solid: bool,
    pub above: bool,
    pub below: bool,
    pub visible: bool,
}

/// A well-formed direction string: `N` or `S`, optionally followed by `W`
/// or `E` when exactly two characters long.
pub open spec fn spec_direction_wf(s: Seq<char>) -> bool {
    s.len() >= 1 && (s[0] == 'N' || s[0] == 'S') && (s.len() == 2 ==> s[1] == 'W' || s[1] == 'E')
}

/// The direction a well-formed direction string denotes.
pub open spec fn spec_direction_from(s: Seq<char>) -> Direction
    recommends
        spec_direction_wf(s),
{
    Direction {
        xdir: if s.len() == 2 {
            if s[1] == 'W' {
                -1i8
            } else {
                1i8
            }
        } else {
            0i8
        },
        ydir: if s[0] == 'N' {
            -1i8
        } else {
            1i8
        },
    }
}

impl Direction {
    /// Parses a direction string, or reports that it is not well formed.
    pub fn parse(s: &str) -> (r: Option<Direction>)
        ensures
            match r {
                Some(d) => spec_direction_wf(s@) && d == spec_direction_from(s@),
                None => !spec_direction_wf(s@),
            },
    {
        let n = s.unicode_len();
        if n < 1 {
            return None;
        }
        let c0 = s.get_char(0);
        let ydir: i8 = if c0 == 'N' {
            -1
        } else if c0 == 'S' {
            1
        } else {
            return None;
        };
        let xdir: i8 = if n == 2 {
            let c1 = s.get_char(1);
            if c1 == 'W' {
                -1
            } else if c1 == 'E' {
                1
            } else {
                return None;
            }
        } else {
            0
        };
        Some(Direction { xdir, ydir })
    }

    /// The direction a well-formed direction string denotes.
    pub fn from(s: &str) -> (r: Direction)
        requires
            spec_direction_wf(s@),
        ensures
            r == spec_direction_from(s@),
    {
        Direction::parse(s).unwrap()
    }
}

/// Rust's truncating integer division: the quotient is rounded toward
/// zero.
pub open spec fn spec_trunc_div(a: int, b: int) -> int
    recommends
        b > 0,
{
    if a >= 0 {
        a / b
    } else {
        -((-a) / b)
    }
}

/// A direction whose anchors are the three meaningful values.
pub open spec fn spec_dir_ok(d: Direction) -> bool {
    -1 <= d.xdir <= 1 && -1 <= d.ydir <= 1
}

/// Where one axis of a geometry stands: at the low edge, centered, or at
/// the high edge, pushed inward by the offset's magnitude (or shifted
/// freely when centered).
pub open spec fn spec_axis_pos(dir: i8, off: i16, scr: u16, size: u16) -> int {
    let mag = if off >= 0 {
        off as int
    } else {
        -off as int
    };
    if dir == 0 {
        spec_trunc_div(scr - size, 2) + off
    } else if dir == -1 {
        mag
    } else {
        (scr - size) - mag
    }
}

/// Where a geometry stands on a screen: each anchor picks its screen
/// side, each offset pushes inward from it.
pub open spec fn spec_on_screen(g: WindowGeometry, scrw: u16, scrh: u16) -> (int, int) {
    (
        spec_axis_pos(g.dir.xdir, g.xoff, scrw, g.w),
        spec_axis_pos(g.dir.ydir, g.yoff, scrh, g.h),
    )
}

/// Whether a point lies inside a geometry placed on a screen.
pub open spec fn spec_has_point(g: WindowGeometry, px: i16, py: i16, scrw: u16, scrh: u16) -> bool {
    let (x, y) = spec_on_screen(g, scrw, scrh);
    px >= x && py >= y && px < x + g.w && py < y + g.h
}

/// Whether a point lies inside a sub-rectangle of a geometry placed on a
/// screen, the rectangle cropped to an offset and size within it.
pub open spec fn spec_has_point_cropped(
    g: WindowGeometry,
    px: i16,
    py: i16,
    scrw: u16,
    scrh: u16,
    cx: i64,
    cy: i64,
    cw: u16,
    ch: u16,
) -> bool {
    let (x, y) = spec_on_screen(g, scrw, scrh);
    px >= x + cx && py >= y + cy && px < x + cx + cw && py < y + cy + ch
}

impl WindowGeometry {
    /// The empty geometry: centered horizontally at the top, no size.
    pub fn new() -> (r: Self)
        ensures
            r == (WindowGeometry {
                dir: Direction { xdir: 0i8, ydir: -1i8 },
                xoff: 0,
                yoff: 0,
                w: 0,
                h: 0,
                solid: false,
                above: false,
                below: false,
                visible: true,
            }),
    {
        WindowGeometry {
            dir: Direction { xdir: 0, ydir: -1 },
            xoff: 0,
            yoff: 0,
            w: 0,
            h: 0,
            solid: false,
            above: false,
            below: false,
            visible: true,
        }
    }

    /// Where this geometry stands on a screen, with its size.
    pub fn on_screen(&self, scrw: u16, scrh: u16) -> (r: (i32, i32, u16, u16))
        ensures
            (r.0 as int, r.1 as int) == spec_on_screen(*self, scrw, scrh),
            r.2 == self.w,
            r.3 == self.h,
    {
        let x = Self::axis_pos(self.dir.xdir, self.xoff, scrw, self.w);
        let y = Self::axis_pos(self.dir.ydir, self.yoff, scrh, self.h);
        (x, y, self.w, self.h)
    }

    /// Where one axis of the geometry stands on the screen.
    fn axis_pos(dir: i8, off: i16, scr: u16, size: u16) -> (r: i32)
        ensures
            r as int == spec_axis_pos(dir, off, scr, size),
    {
        let mag: i32 = if off >= 0 {
            off as i32
        } else {
            -(off as i32)
        };
        let span = (scr as i32) - (size as i32);
        if dir == 0 {
            let half = if span >= 0 {
                span / 2
            } else {
                -((-span) / 2)
            };
            half + (off as i32)
        } else if dir == -1 {
            mag
        } else {
            span - mag
        }
    }

    /// Whether a point lies inside this geometry placed on a screen.
    pub fn has_point(&self, px: i16, py: i16, scrw: u16, scrh: u16) -> (r: bool)
        ensures
            r == spec_has_point(*self, px, py, scrw, scrh),
    {
        let (x, y, w, h) = self.on_screen(scrw, scrh);
        px as i32 >= x && py as i32 >= y && (px as i32) < x + w as i32 && (py as i32) < y
            + h as i32
    }

    /// Whether a point lies inside a sub-rectangle of this geometry placed
    /// on a screen.
    pub fn has_point_cropped(
        &self,
        px: i16,
        py: i16,
        scrw: u16,
        scrh: u16,
        cx: i64,
        cy: i64,
        cw: u16,
        ch: u16,
    ) -> (r: bool)
        requires
            -0x1_0000_0000_0000i64 <= cx <= 0x1_0000_0000_0000i64,
            -0x1_0000_0000_0000i64 <= cy <= 0x1_0000_0000_0000i64,
        ensures
            r == spec_has_point_cropped(*self, px, py, scrw, scrh, cx, cy, cw, ch),
    {
        let (x, y, _, _) = self.on_screen(scrw, scrh);
        px as i64 >= x as i64 + cx && py as i64 >= y as i64 + cy && (px as i64) < x as i64 + cx
            + cw as i64 && (py as i64) < y as i64 + cy + ch as i64
    }
}

} // verus!
