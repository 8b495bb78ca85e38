//! Screen geometry shared by the terminal screens: rectangles, hit tests,
//! insets, and the minimum sizes the screens need.

use vstd::prelude::*;

verus! {

/// A rectangle of terminal cells.
#[derive(Clone, Copy, Debug, PartialEq, Eq, Structural, Default)]
pub struct Rect {
    pub x: u16,
    pub y: u16,
    pub width: u16,
    pub height: u16,
}

/// `a + b`, saturating at the largest `u16`.
pub open spec fn sat_add(a: u16, b: u16) -> u16 {
    if a + b <= u16::MAX {
        (a + b) as u16
    } else {
        u16::MAX
    }
}

/// `a - b`, saturating at zero.
pub open spec fn sat_sub(a: u16, b: u16) -> u16 {
    if a >= b {
        (a - b) as u16
    } else {
        0
    }
}

pub fn saturating_add(a: u16, b: u16) -> (r: u16)
    ensures
        r == sat_add(a, b),
{
    if a <= u16::MAX - b {
        a + b
    } else {
        u16::MAX
    }
}

pub fn saturating_sub(a: u16, b: u16) -> (r: u16)
    ensures
        r == sat_sub(a, b),
{
    if a >= b {
        a - b
    } else {
        0
    }
}

impl Rect {
    pub fn new(x: u16, y: u16, width: u16, height: u16) -> (r: Rect)
        ensures
            r == (Rect { x, y, width, height }),
    {
        Rect { x, y, width, height }
    }

    /// The column just right of the rectangle.
    pub fn right(&self) -> (r: u16)
        ensures
            r == sat_add(self.x, self.width),
    {
        saturating_add(self.x, self.width)
    }

    /// The row just below the rectangle.
    pub fn bottom(&self) -> (r: u16)
        ensures
            r == sat_add(self.y, self.height),
    {
        saturating_add(self.y, self.height)
    }
}

/// Whether cell (`column`, `row`) lies inside `area`.
pub open spec fn contains_spec(area: Rect, column: u16, row: u16) -> bool {
    area.x <= column < sat_add(area.x, area.width) && area.y <= row < sat_add(area.y, area.height)
}

/// Whether cell (`column`, `row`) lies inside `area`.
pub fn contains(area: Rect, column: u16, row: u16) -> (r: bool)
    ensures
        r == contains_spec(area, column, row),
{
    column >= area.x && column < area.right() && row >= area.y && row < area.bottom()
}

/// `area` narrowed by `amount` columns on each side.
pub fn inset_horizontally(area: Rect, amount: u16) -> (r: Rect)
    ensures
        r == (Rect {
            x: sat_add(area.x, amount),
            y: area.y,
            width: sat_sub(area.width, if 2 * amount <= u16::MAX { (2 * amount) as u16 } else { u16::MAX }),
            height: area.height,
        }),
{
    let twice = if amount <= u16::MAX / 2 {
        amount * 2
    } else {
        u16::MAX
    };
    Rect::new(saturating_add(area.x, amount), area.y, saturating_sub(area.width, twice), area.height)
}

} // verus!
