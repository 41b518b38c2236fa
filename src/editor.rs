use vstd::prelude::*;
use crate::canvas::{Canvas, painted, blank_cells};
use crate::geometry::{
    UNIT,
    MAX_X,
    MAX_Y,
    MAX_SCROLL,
    MAX_DELTA,
    clamp,
    round_unit,
    follow,
    clamp_i64,
    round_to_unit,
    follow_scroll,
};
use crate::glyph::Glyph;
use crate::raster::{line_path, line_cells};

verus! {

/// The editor's input modes; exactly one is active.
#[derive(Clone, Copy, PartialEq, Eq, Structural, Debug)]
pub enum Mode {
    Drawing,
    Selection,
    ColorSelection,
    CoordinateInput,
    TypstInput,
    Settings,
    PdfRender,
}

/// How typed coordinates are read.
#[derive(Clone, Copy, PartialEq, Eq, Structural, Debug)]
pub enum CoordinateSystem {
    Cartesian,
    Polar,
    Cylindrical,
}

/// A key press as the editor sees it.
#[derive(Clone, Copy, PartialEq, Eq, Structural, Debug)]
pub enum Key {
    Char(char),
    Esc,
    Enter,
    Backspace,
    Other,
}

/// Work that a key asks of the surroundings, which the editor cannot do
/// itself. Polar and cylindrical values are in thousandths.
#[derive(Clone, Copy, PartialEq, Eq, Structural, Debug)]
pub enum Action {
    Nothing,
    /// Write the export of the canvas and compile it.
    Export,
    /// Open the compiled document in a viewer.
    OpenViewer,
    /// Move the cursor to radius and angle in degrees from the origin.
    Polar(i64, i64),
    /// Move the cursor to radius, angle in degrees and height from the origin.
    Cylindrical(i64, i64, i64),
}

#[derive(Clone, Copy, PartialEq, Eq, Structural, Debug)]
pub struct Rgb {
    pub r: u8,
    pub g: u8,
    pub b: u8,
}

/// The drawing tool settings.
#[derive(Clone, Copy, PartialEq, Eq, Structural, Debug)]
pub struct Tools {
    pub glyph: Glyph,
    pub color: Rgb,
    pub continuous_draw: bool,
    pub grid_snap: bool,
    pub show_axes: bool,
    pub system: CoordinateSystem,
}

/// Cursor, its previous position, the scroll offset and the origin, all
/// positions in thousandths of a cell; `y` grows downwards through the rows.
#[derive(Clone, Copy, PartialEq, Eq, Structural, Debug)]
pub struct CursorState {
    pub x: i64,
    pub y: i64,
    pub last_x: i64,
    pub last_y: i64,
    pub scroll_y: usize,
    pub origin_x: i64,
    pub origin_y: i64,
}

impl CursorState {
    pub open spec fn wf(&self) -> bool {
        &&& 0 <= self.x <= MAX_X
        &&& 0 <= self.y <= MAX_Y
        &&& 0 <= self.last_x <= MAX_X
        &&& 0 <= self.last_y <= MAX_Y
        &&& 0 <= self.origin_x <= MAX_X
        &&& 0 <= self.origin_y <= MAX_Y
        &&& self.scroll_y <= MAX_SCROLL
    }

    /// Column of the cell under the cursor.
    pub open spec fn col(&self) -> int {
        self.x as int / UNIT as int
    }

    /// Row of the cell under the cursor.
    pub open spec fn row(&self) -> int {
        self.y as int / UNIT as int
    }
}

pub open spec fn snapped(v: int, snap: bool) -> int {
    if snap {
        round_unit(v)
    } else {
        v
    }
}

/// The cursor state after a step by (`dx`, `dy`): the previous position is
/// kept, the new one snapped when asked, clamped to the canvas, and the view
/// scrolled to show its row.
pub open spec fn moved(c: CursorState, snap: bool, dx: int, dy: int) -> CursorState {
    let nx = clamp(snapped(c.x + dx, snap), 0, MAX_X as int);
    let ny = clamp(snapped(c.y + dy, snap), 0, MAX_Y as int);
    CursorState {
        x: nx as i64,
        y: ny as i64,
        last_x: c.x,
        last_y: c.y,
        scroll_y: follow(c.scroll_y as int, ny / UNIT as int) as usize,
        origin_x: c.origin_x,
        origin_y: c.origin_y,
    }
}

/// The cells after the line from the previous cursor cell to the current one
/// is drawn with `g`.
pub open spec fn stroked(s: Seq<Option<Glyph>>, c: CursorState, g: Glyph) -> Seq<Option<Glyph>> {
    painted(
        s,
        line_path(c.last_x as int / UNIT as int, c.last_y as int / UNIT as int, c.col(), c.row()),
        g,
    )
}

/// The cells after a cursor step has left `c`: a stroke when continuous
/// drawing is on.
pub open spec fn after_step(s: Seq<Option<Glyph>>, c: CursorState, t: Tools) -> Seq<Option<Glyph>> {
    if t.continuous_draw {
        stroked(s, c, t.glyph)
    } else {
        s
    }
}

/// A step longer than `MAX_DELTA` lands where the step of `MAX_DELTA` in the
/// same direction does: past the canvas edge, to which it is clamped.
pub proof fn lemma_step_beyond(x: int, d: int, hi: int, snap: bool)
    requires
        0 <= x <= hi <= MAX_Y,
    ensures
        clamp(snapped(x + clamp(d, -MAX_DELTA as int, MAX_DELTA as int), snap), 0, hi) == clamp(
            snapped(x + d, snap),
            0,
            hi,
        ),
{
    let e = clamp(d, -MAX_DELTA as int, MAX_DELTA as int);
    if d > MAX_DELTA {
        assert(snapped(x + e, snap) > hi);
        assert(snapped(x + d, snap) > hi);
    } else if d < -MAX_DELTA {
        assert(snapped(x + e, snap) < 0);
        assert(snapped(x + d, snap) < 0);
    }
}

/// The whole editor state.
pub struct Editor {
    pub mode: Mode,
    pub canvas: Canvas,
    pub cursor: CursorState,
    pub tools: Tools,
    pub color_input: Vec<char>,
    pub coordinate_input: Vec<char>,
    pub text_buffer: Vec<char>,
    /// Where the next typed character goes in `text_buffer`.
    pub text_cursor: usize,
    pub should_quit: bool,
}

impl Editor {
    /// Well-formed: the canvas has its size, the cursor lies on it, and only
    /// the active mode's input buffer may hold anything.
    pub open spec fn wf(&self) -> bool {
        &&& self.canvas.wf()
        &&& self.cursor.wf()
        &&& self.color_input@.len() <= 6
        &&& self.coordinate_input@.len() <= 20
        &&& self.mode != Mode::ColorSelection ==> self.color_input@.len() == 0
        &&& self.mode != Mode::CoordinateInput ==> self.coordinate_input@.len() == 0
        &&& self.mode != Mode::TypstInput ==> self.text_buffer@.len() == 0
        &&& self.text_cursor <= self.text_buffer@.len()
    }

    /// Mode, tools, buffers and the quit flag are those of `o`.
    pub open spec fn keeps_inputs(&self, o: &Editor) -> bool {
        &&& self.mode == o.mode
        &&& self.tools == o.tools
        &&& self.color_input@ == o.color_input@
        &&& self.coordinate_input@ == o.coordinate_input@
        &&& self.text_buffer@ == o.text_buffer@
        &&& self.text_cursor == o.text_cursor
        &&& self.should_quit == o.should_quit
    }

    /// A new editor: empty canvas, cursor and origin at the centre of the
    /// first screen, drawing points in hot pink.
    pub fn new() -> (r: Editor)
        ensures
            r.wf(),
            r.mode == Mode::Drawing,
            r.canvas@ == blank_cells(),
            r.cursor == (CursorState {
                x: 40000,
                y: 20000,
                last_x: 40000,
                last_y: 20000,
                scroll_y: 0,
                origin_x: 40000,
                origin_y: 20000,
            }),
            r.tools == (Tools {
                glyph: Glyph::Point,
                color: Rgb { r: 255, g: 105, b: 180 },
                continuous_draw: false,
                grid_snap: false,
                show_axes: true,
                system: CoordinateSystem::Cartesian,
            }),
            !r.should_quit,
    {
        Editor {
            mode: Mode::Drawing,
            canvas: Canvas::new(),
            cursor: CursorState {
                x: 40000,
                y: 20000,
                last_x: 40000,
                last_y: 20000,
                scroll_y: 0,
                origin_x: 40000,
                origin_y: 20000,
            },
            tools: Tools {
                glyph: Glyph::Point,
                color: Rgb { r: 255, g: 105, b: 180 },
                continuous_draw: false,
                grid_snap: false,
                show_axes: true,
                system: CoordinateSystem::Cartesian,
            },
            color_input: Vec::new(),
            coordinate_input: Vec::new(),
            text_buffer: Vec::new(),
            text_cursor: 0,
            should_quit: false,
        }
    }

    /// Draws the line from the previous cursor cell to the current one with
    /// the current glyph.
    pub fn draw_line_to_cursor(&mut self)
        requires
            old(self).wf(),
        ensures
            final(self).wf(),
            final(self).keeps_inputs(&*old(self)),
            final(self).cursor == old(self).cursor,
            final(self).canvas@ == stroked(old(self).canvas@, old(self).cursor, old(self).tools.glyph),
    {
        let c = self.cursor;
        let path = line_cells(c.last_x / UNIT, c.last_y / UNIT, c.x / UNIT, c.y / UNIT);
        let g = self.tools.glyph;
        self.canvas.paint_path(&path, g);
    }

    /// Moves the cursor by (`dx`, `dy`) thousandths of a cell: snapped to
    /// whole cells when grid snap is on, clamped to the canvas, with the view
    /// scrolled to show it, and with a stroke drawn when continuous drawing is
    /// on.
    pub fn move_by(&mut self, dx: i64, dy: i64)
        requires
            old(self).wf(),
        ensures
            final(self).wf(),
            final(self).keeps_inputs(&*old(self)),
            final(self).cursor == moved(
                old(self).cursor,
                old(self).tools.grid_snap,
                dx as int,
                dy as int,
            ),
            final(self).canvas@ == after_step(old(self).canvas@, final(self).cursor, old(self).tools),
            0 <= final(self).cursor.x <= MAX_X,
            0 <= final(self).cursor.y <= MAX_Y,
            old(self).tools.grid_snap ==> final(self).cursor.x % UNIT == 0 && final(self).cursor.y
                % UNIT == 0,
            final(self).cursor.scroll_y <= final(self).cursor.row() <= final(self).cursor.scroll_y
                + 39,
    {
        let c = self.cursor;
        let sx = clamp_i64(dx, -MAX_DELTA, MAX_DELTA);
        let sy = clamp_i64(dy, -MAX_DELTA, MAX_DELTA);
        proof {
            lemma_step_beyond(c.x as int, dx as int, MAX_X as int, self.tools.grid_snap);
            lemma_step_beyond(c.y as int, dy as int, MAX_Y as int, self.tools.grid_snap);
        }
        let mut nx: i64 = c.x + sx;
        let mut ny: i64 = c.y + sy;
        if self.tools.grid_snap {
            nx = round_to_unit(nx);
            ny = round_to_unit(ny);
        }
        let nx = clamp_i64(nx, 0, MAX_X);
        let ny = clamp_i64(ny, 0, MAX_Y);
        let scroll = follow_scroll(c.scroll_y, (ny / UNIT) as usize);
        self.cursor = CursorState {
            x: nx,
            y: ny,
            last_x: c.x,
            last_y: c.y,
            scroll_y: scroll,
            origin_x: c.origin_x,
            origin_y: c.origin_y,
        };
        if self.tools.continuous_draw {
            self.draw_line_to_cursor();
        }
    }
}


} // verus!
