use vstd::prelude::*;

verus! {

/// Sub-cell steps per cell: positions are held in thousandths of a cell.
pub const UNIT: i64 = 1000;
/// Largest horizontal position, the left edge of the last column.
pub const MAX_X: i64 = 79000;
/// Largest vertical position, the top edge of the last row.
pub const MAX_Y: i64 = 199000;
/// Largest scroll offset: the canvas height less the visible height.
pub const MAX_SCROLL: usize = 160;
/// Largest magnitude of one cursor step or coordinate offset.
pub const MAX_DELTA: i64 = 1000000000000;

pub open spec fn clamp(v: int, lo: int, hi: int) -> int {
    if v < lo {
        lo
    } else if v > hi {
        hi
    } else {
        v
    }
}

/// `v` rounded to the nearest whole cell, halves away from zero.
pub open spec fn round_unit(v: int) -> int {
    if v >= 0 {
        ((v + 500) / 1000) * 1000
    } else {
        -(((-v + 500) / 1000) * 1000)
    }
}

/// The scroll offset after the cursor has moved to `row`: unchanged while the
/// row is visible, else the least change that shows it.
pub open spec fn follow(scroll: int, row: int) -> int {
    if row < scroll {
        row
    } else if row > scroll + 39 {
        clamp(row + 1 - 40, 0, MAX_SCROLL as int)
    } else {
        scroll
    }
}

pub fn clamp_i64(v: i64, lo: i64, hi: i64) -> (r: i64)
    requires
        lo <= hi,
    ensures
        r == clamp(v as int, lo as int, hi as int),
{
    if v < lo {
        lo
    } else if v > hi {
        hi
    } else {
        v
    }
}

/// Rounds a position to the nearest whole cell, halves away from zero.
pub fn round_to_unit(v: i64) -> (r: i64)
    requires
        -4 * MAX_DELTA <= v <= 4 * MAX_DELTA,
    ensures
        r == round_unit(v as int),
{
    if v >= 0 {
        ((v + 500) / 1000) * 1000
    } else {
        -(((-v + 500) / 1000) * 1000)
    }
}

/// The scroll offset that keeps `row` visible, see `follow`.
pub fn follow_scroll(scroll: usize, row: usize) -> (r: usize)
    requires
        scroll <= MAX_SCROLL,
        row < 200,
    ensures
        r as int == follow(scroll as int, row as int),
        r <= MAX_SCROLL,
        r <= row <= r + 39,
{
    if row < scroll {
        row
    } else if row > scroll + 39 {
        let s = row + 1 - 40;
        if s > MAX_SCROLL {
            MAX_SCROLL
        } else {
            s
        }
    } else {
        scroll
    }
}

} // verus!
