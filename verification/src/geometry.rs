//! Whole-pixel geometry: rectangles, the scale from minutes to pixels, and
//! colours.

use vstd::prelude::*;

verus! {

/// The quotient of `a` by a positive `b`, rounded down.
pub fn floor_div(a: i64, b: i64) -> (q: i64)
    requires
        b > 0,
    ensures
        q == a / b,
{
    if a >= 0 {
        a / b
    } else {
        let up: i64 = -(a + 1);
        let q: i64 = -(up / b) - 1;
        proof {
            let u = up as int;
            let d = b as int;
            let k = u / d;
            vstd::arithmetic::div_mod::lemma_fundamental_div_mod(u, d);
            vstd::arithmetic::div_mod::lemma_mod_bound(u, d);
            assert(a == d * (-k - 1) + (d - 1 - u % d)) by (nonlinear_arith)
                requires
                    u == d * k + u % d,
                    u == -(a + 1),
            ;
            vstd::arithmetic::div_mod::lemma_fundamental_div_mod_converse(
                a as int,
                d,
                -k - 1,
                d - 1 - u % d,
            );
        }
        q
    }
}

/// No edge and no size of a table on a screen passes this many pixels.
pub const SCREEN: i64 = 0x1_0000_0000;

/// A rectangle of whole pixels. A width or height below zero is allowed: it
/// comes out of an event that ends before it starts, or of an area with no
/// room.
#[derive(Clone, Copy, Debug, PartialEq, Eq, Structural)]
pub struct Rect {
    pub left: i64,
    pub top: i64,
    pub width: i64,
    pub height: i64,
}

impl Rect {
    /// Whether no edge and no size of the rectangle passes `limit`.
    pub open spec fn is_within(self, limit: int) -> bool {
        &&& -limit <= self.left <= limit
        &&& -limit <= self.top <= limit
        &&& -limit <= self.width <= limit
        &&& -limit <= self.height <= limit
    }

    /// Whether the rectangle has the measures of something on a screen.
    pub open spec fn is_screen(self) -> bool {
        self.is_within(SCREEN as int)
    }

    /// The rectangle with each edge moved inwards by `by` pixels.
    pub open spec fn shrunk(self, by: int) -> Rect {
        Rect {
            left: (self.left + by) as i64,
            top: (self.top + by) as i64,
            width: (self.width - 2 * by) as i64,
            height: (self.height - 2 * by) as i64,
        }
    }
}

/// The place that a table is given on the screen.
#[derive(Clone, Copy, Debug, PartialEq, Eq, Structural)]
pub struct Area {
    pub left: i32,
    pub top: i32,
    pub width: i32,
    pub height: i32,
}

impl Area {
    /// The rectangle of this place.
    pub open spec fn as_rect(self) -> Rect {
        Rect {
            left: self.left as i64,
            top: self.top as i64,
            width: self.width as i64,
            height: self.height as i64,
        }
    }

    /// The rectangle of this place.
    pub fn rect(&self) -> (r: Rect)
        ensures
            r == self.as_rect(),
            r.is_screen(),
    {
        Rect {
            left: self.left as i64,
            top: self.top as i64,
            width: self.width as i64,
            height: self.height as i64,
        }
    }
}

/// A colour of three channels.
#[derive(Clone, Copy, Debug, PartialEq, Eq, Structural)]
pub struct Color {
    pub r: u8,
    pub g: u8,
    pub b: u8,
}

/// One channel of a colour at `percent` hundredths of its strength, rounded
/// down and held to the range of a channel.
pub open spec fn shifted_channel(channel: int, percent: int) -> int {
    let shifted = channel * percent / 100;
    if shifted > 255 {
        255
    } else {
        shifted
    }
}

/// The colour at `percent` hundredths of its strength.
pub open spec fn shifted_color(color: Color, percent: int) -> Color {
    Color {
        r: shifted_channel(color.r as int, percent) as u8,
        g: shifted_channel(color.g as int, percent) as u8,
        b: shifted_channel(color.b as int, percent) as u8,
    }
}

/// One channel of a colour at `percent` hundredths of its strength.
pub fn shift_channel(channel: u8, percent: u32) -> (r: u8)
    ensures
        r == shifted_channel(channel as int, percent as int),
{
    assert(channel * percent <= 255 * 0xffff_ffff) by (nonlinear_arith)
        requires
            channel <= 255,
            percent <= 0xffff_ffff,
    ;
    let shifted: u64 = (channel as u64) * (percent as u64) / 100;
    if shifted > 255 {
        255
    } else {
        shifted as u8
    }
}

/// The colour with each channel at `percent` hundredths of its strength: 50
/// halves it, 125 makes it a quarter lighter. A channel never passes 255.
pub fn shift_color(color: Color, percent: u32) -> (r: Color)
    ensures
        r == shifted_color(color, percent as int),
{
    Color {
        r: shift_channel(color.r, percent),
        g: shift_channel(color.g, percent),
        b: shift_channel(color.b, percent),
    }
}

} // verus!
