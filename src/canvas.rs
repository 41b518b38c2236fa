use vstd::prelude::*;
use crate::glyph::Glyph;
use crate::raster::cells_view;

verus! {

/// Number of columns.
pub const WIDTH: usize = 80;
/// Number of rows shown at once.
pub const HEIGHT: usize = 40;
/// Number of rows of the whole canvas, of which `HEIGHT` are shown.
pub const VIRTUAL_HEIGHT: usize = 200;
/// Number of cells.
pub const CELLS: usize = 16000;

/// Position of cell (`row`, `col`) in the row-major cell sequence.
pub open spec fn index_of(row: int, col: int) -> int {
    row * WIDTH as int + col
}

pub open spec fn in_bounds(row: int, col: int) -> bool {
    0 <= row < VIRTUAL_HEIGHT as int && 0 <= col < WIDTH as int
}

/// A cell on the canvas has a position in the cell sequence, within its row.
pub proof fn lemma_index_in_range(row: int, col: int)
    requires
        in_bounds(row, col),
    ensures
        0 <= index_of(row, 0) <= index_of(row, col) < index_of(row, WIDTH as int) <= CELLS,
        index_of(row, WIDTH as int) == index_of(row, 0) + WIDTH,
{
    assert(0 <= row * 80 + col < row * 80 + 80 <= 16000) by (nonlinear_arith)
        requires
            0 <= row < 200,
            0 <= col < 80,
    ;
}

/// Whether some (column, row) pair of `path` lies on the canvas at position `k`.
pub open spec fn covers(path: Seq<(int, int)>, k: int) -> bool {
    exists|m: int|
        0 <= m < path.len() && in_bounds(path[m].1, path[m].0) && index_of(path[m].1, path[m].0)
            == k
}

/// The cells `s` with `g` written at every cell of `path` on the canvas.
pub open spec fn painted(s: Seq<Option<Glyph>>, path: Seq<(int, int)>, g: Glyph) -> Seq<
    Option<Glyph>,
> {
    Seq::new(s.len(), |k: int| if covers(path, k) { Some(g) } else { s[k] })
}

proof fn lemma_covers_push(path: Seq<(int, int)>, c: (int, int), k: int)
    ensures
        covers(path.push(c), k) <==> (covers(path, k) || (in_bounds(c.1, c.0) && index_of(c.1, c.0)
            == k)),
{
    let q = path.push(c);
    if covers(q, k) {
        let m = choose|m: int|
            0 <= m < q.len() && in_bounds(q[m].1, q[m].0) && index_of(q[m].1, q[m].0) == k;
        if m < path.len() {
            assert(path[m] == q[m]);
        }
    }
    if covers(path, k) {
        let m = choose|m: int|
            0 <= m < path.len() && in_bounds(path[m].1, path[m].0) && index_of(path[m].1, path[m].0)
                == k;
        assert(q[m] == path[m]);
    }
    if in_bounds(c.1, c.0) && index_of(c.1, c.0) == k {
        assert(q[path.len() as int] == c);
    }
}

/// The cells of an empty canvas.
pub open spec fn blank_cells() -> Seq<Option<Glyph>> {
    Seq::new(CELLS as nat, |k: int| None)
}

/// The grid of optional glyphs, `VIRTUAL_HEIGHT` rows of `WIDTH` cells, held
/// row by row.
pub struct Canvas {
    cells: Vec<Option<Glyph>>,
}

impl View for Canvas {
    type V = Seq<Option<Glyph>>;

    closed spec fn view(&self) -> Seq<Option<Glyph>> {
        self.cells@
    }
}

impl Canvas {
    pub open spec fn wf(&self) -> bool {
        self@.len() == CELLS as int
    }

    /// Cell (`row`, `col`) of the model.
    pub open spec fn at(&self, row: int, col: int) -> Option<Glyph> {
        self@[index_of(row, col)]
    }

    /// The cells of one row, left to right.
    pub open spec fn row_of(s: Seq<Option<Glyph>>, row: int) -> Seq<Option<Glyph>> {
        s.subrange(index_of(row, 0), index_of(row, WIDTH as int))
    }

    /// An empty canvas.
    pub fn new() -> (r: Canvas)
        ensures
            r.wf(),
            r@ == blank_cells(),
    {
        let mut cells: Vec<Option<Glyph>> = Vec::new();
        let mut k: usize = 0;
        while k < CELLS
            invariant
                k <= CELLS,
                cells@.len() == k,
                forall|j: int| 0 <= j < k ==> (#[trigger] cells@[j]) is None,
            decreases CELLS - k,
        {
            cells.push(None);
            k = k + 1;
        }
        proof {
            assert(cells@ =~= blank_cells());
        }
        Canvas { cells }
    }

    /// Writes `g` at (`row`, `col`); does nothing outside the canvas.
    pub fn place(&mut self, row: usize, col: usize, g: Glyph)
        requires
            old(self).wf(),
        ensures
            final(self).wf(),
            in_bounds(row as int, col as int) ==> final(self)@ == old(self)@.update(
                index_of(row as int, col as int),
                Some(g),
            ),
            !in_bounds(row as int, col as int) ==> final(self)@ == old(self)@,
    {
        if row < VIRTUAL_HEIGHT && col < WIDTH {
            self.cells.set(row * WIDTH + col, Some(g));
        }
    }

    /// Empties cell (`row`, `col`); does nothing outside the canvas.
    pub fn clear(&mut self, row: usize, col: usize)
        requires
            old(self).wf(),
        ensures
            final(self).wf(),
            in_bounds(row as int, col as int) ==> final(self)@ == old(self)@.update(
                index_of(row as int, col as int),
                None,
            ),
            !in_bounds(row as int, col as int) ==> final(self)@ == old(self)@,
    {
        if row < VIRTUAL_HEIGHT && col < WIDTH {
            self.cells.set(row * WIDTH + col, None);
        }
    }

    /// Empties every cell.
    pub fn clear_all(&mut self)
        requires
            old(self).wf(),
        ensures
            final(self).wf(),
            final(self)@ == blank_cells(),
    {
        let mut k: usize = 0;
        while k < CELLS
            invariant
                k <= CELLS,
                self@.len() == CELLS,
                forall|j: int| 0 <= j < k ==> (#[trigger] self@[j]) is None,
            decreases CELLS - k,
        {
            self.cells.set(k, None);
            k = k + 1;
        }
        proof {
            assert(self@ =~= blank_cells());
        }
    }

    /// Writes `g` at every (column, row) cell of `path` that lies on the
    /// canvas; cells off the canvas are skipped.
    pub fn paint_path(&mut self, path: &Vec<(i64, i64)>, g: Glyph)
        requires
            old(self).wf(),
        ensures
            final(self).wf(),
            final(self)@ == painted(old(self)@, cells_view(path@), g),
    {
        let mut m: usize = 0;
        while m < path.len()
            invariant
                m <= path@.len(),
                self.wf(),
                forall|k: int|
                    0 <= k < CELLS ==> (#[trigger] self@[k]) == if covers(
                        cells_view(path@).take(m as int),
                        k,
                    ) {
                        Some(g)
                    } else {
                        old(self)@[k]
                    },
            decreases path@.len() - m,
        {
            let (c, r) = path[m];
            proof {
                let pv = cells_view(path@);
                assert(pv.take(m + 1) =~= pv.take(m as int).push((c as int, r as int)));
                assert forall|k: int| 0 <= k < CELLS implies covers(pv.take(m + 1), k) == (covers(
                    pv.take(m as int),
                    k,
                ) || (in_bounds(r as int, c as int) && index_of(r as int, c as int) == k)) by {
                    lemma_covers_push(pv.take(m as int), (c as int, r as int), k);
                }
            }
            let ghost prev = self@;
            if 0 <= r && r < VIRTUAL_HEIGHT as i64 && 0 <= c && c < WIDTH as i64 {
                self.cells.set(r as usize * WIDTH + c as usize, Some(g));
            }
            proof {
                let pv = cells_view(path@);
                assert forall|k: int| 0 <= k < CELLS implies (#[trigger] self@[k]) == if covers(
                    pv.take(m + 1),
                    k,
                ) {
                    Some(g)
                } else {
                    old(self)@[k]
                } by {
                    assert(prev[k] == if covers(pv.take(m as int), k) {
                        Some(g)
                    } else {
                        old(self)@[k]
                    });
                }
            }
            m = m + 1;
        }
        proof {
            assert(cells_view(path@).take(path@.len() as int) =~= cells_view(path@));
            assert(self@ =~= painted(old(self)@, cells_view(path@), g));
        }
    }

    /// The cells of row `r`, left to right.
    pub fn row(&self, r: usize) -> (v: Vec<Option<Glyph>>)
        requires
            self.wf(),
            r < VIRTUAL_HEIGHT,
        ensures
            v@ == Canvas::row_of(self@, r as int),
    {
        let mut v: Vec<Option<Glyph>> = Vec::new();
        let mut c: usize = 0;
        while c < WIDTH
            invariant
                self.wf(),
                r < VIRTUAL_HEIGHT,
                c <= WIDTH,
                v@ == self@.subrange(index_of(r as int, 0), index_of(r as int, c as int)),
            decreases WIDTH - c,
        {
            proof {
                lemma_index_in_range(r as int, c as int);
            }
            v.push(self.cells[r * WIDTH + c]);
            proof {
                assert(v@ =~= self@.subrange(index_of(r as int, 0), index_of(r as int, c + 1)));
            }
            c = c + 1;
        }
        v
    }

    /// The glyph at (`row`, `col`), `None` outside the canvas.
    pub fn get(&self, row: usize, col: usize) -> (r: Option<Glyph>)
        requires
            self.wf(),
        ensures
            in_bounds(row as int, col as int) ==> r == self.at(row as int, col as int),
            !in_bounds(row as int, col as int) ==> r is None,
    {
        if row < VIRTUAL_HEIGHT && col < WIDTH {
            self.cells[row * WIDTH + col]
        } else {
            None
        }
    }
}

} // verus!
