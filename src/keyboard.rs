use vstd::prelude::*;
use crate::decimal::{index_from, find_char, lemma_index_from_bounds};

verus! {

/// The keys of one keyboard row, left to right.
pub open spec fn key_row(r: int) -> Seq<char> {
    if r == 0 {
        seq!['q', 'w', 'e', 'r', 't', 'y', 'u', 'i', 'o', 'p']
    } else if r == 1 {
        seq!['a', 's', 'd', 'f', 'g', 'h', 'j', 'k', 'l', ';']
    } else {
        seq!['z', 'x', 'c', 'v', 'b', 'n', 'm', ',', '.', '/']
    }
}

/// Horizontal spacing of the keys on the canvas, in cells.
pub const KEY_SPACING_X: usize = 8;
/// Vertical spacing of the keyboard rows on the canvas, in cells.
pub const KEY_SPACING_Y: usize = 13;

/// Canvas (column, row) of a key of the keyboard grid: the key's column in its
/// row times eight, the row's number times thirteen.
pub open spec fn key_position(c: char) -> Option<(int, int)> {
    if index_from(key_row(0), c, 0) < 10 {
        Some((index_from(key_row(0), c, 0) * 8, 0))
    } else if index_from(key_row(1), c, 0) < 10 {
        Some((index_from(key_row(1), c, 0) * 8, 13))
    } else if index_from(key_row(2), c, 0) < 10 {
        Some((index_from(key_row(2), c, 0) * 8, 26))
    } else {
        None
    }
}

/// The keys of one keyboard row, left to right.
fn row_keys(r: usize) -> (v: Vec<char>)
    ensures
        v@ == key_row(r as int),
{
    if r == 0 {
        vec!['q', 'w', 'e', 'r', 't', 'y', 'u', 'i', 'o', 'p']
    } else if r == 1 {
        vec!['a', 's', 'd', 'f', 'g', 'h', 'j', 'k', 'l', ';']
    } else {
        vec!['z', 'x', 'c', 'v', 'b', 'n', 'm', ',', '.', '/']
    }
}

/// The canvas (column, row) that key `c` stands for, if it is on the grid.
pub fn keyboard_position(c: char) -> (r: Option<(usize, usize)>)
    ensures
        r matches Some(p) ==> key_position(c) == Some((p.0 as int, p.1 as int)),
        r is None ==> key_position(c) is None,
{
    let mut row: usize = 0;
    while row < 3
        invariant
            row <= 3,
            forall|q: int| 0 <= q < row ==> index_from(#[trigger] key_row(q), c, 0) >= 10,
        decreases 3 - row,
    {
        let keys = row_keys(row);
        let i = find_char(&keys, c, 0);
        proof {
            lemma_index_from_bounds(keys@, c, 0);
        }
        if i < 10 {
            proof {
                assert(key_row(0).len() == 10);
                assert(key_row(1).len() == 10);
            }
            return Some((i * KEY_SPACING_X, row * KEY_SPACING_Y));
        }
        row = row + 1;
    }
    None
}

} // verus!
