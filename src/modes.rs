//! The key-driven mode machine: what each key does in each mode, stated
//! as one predicate per mode over the editor before and after, and the
//! handlers proved to meet them.

use vstd::prelude::*;
use crate::canvas::{covers, blank_cells, index_of, lemma_index_in_range, CELLS, WIDTH};
use crate::decimal::{fields_from, parse_fields};
use crate::editor::{
    after_step,
    moved,
    stroked,
    Action,
    CoordinateSystem,
    CursorState,
    Editor,
    Key,
    Mode,
    Rgb,
    Tools,
};
use crate::export::{export_of, export_text};
use crate::geometry::{clamp, clamp_i64, MAX_DELTA, MAX_SCROLL, MAX_X, MAX_Y, UNIT};
use crate::glyph::Glyph;
use crate::hex::{byte_of, hex_digit_check, is_hex_digit, is_hex_triple, parse_hex_color, to_upper, upper_of};
use crate::keyboard::{key_position, keyboard_position};
use crate::raster::{lemma_line_ends, line_path};

verus! {

/// The editor `n` holds exactly these parts.
pub open spec fn state_is(
    n: &Editor,
    mode: Mode,
    canvas: Seq<Option<Glyph>>,
    cursor: CursorState,
    tools: Tools,
    color_input: Seq<char>,
    coordinate_input: Seq<char>,
    text_buffer: Seq<char>,
    text_cursor: int,
    should_quit: bool,
) -> bool {
    &&& n.mode == mode
    &&& n.canvas@ == canvas
    &&& n.cursor == cursor
    &&& n.tools == tools
    &&& n.color_input@ == color_input
    &&& n.coordinate_input@ == coordinate_input
    &&& n.text_buffer@ == text_buffer
    &&& n.text_cursor as int == text_cursor
    &&& n.should_quit == should_quit
}

/// `n` is `o` with only the mode changed.
pub open spec fn only_mode(o: &Editor, n: &Editor, mode: Mode) -> bool {
    state_is(
        n,
        mode,
        o.canvas@,
        o.cursor,
        o.tools,
        o.color_input@,
        o.coordinate_input@,
        o.text_buffer@,
        o.text_cursor as int,
        o.should_quit,
    )
}

pub open spec fn with_tools(o: &Editor, n: &Editor, tools: Tools) -> bool {
    state_is(
        n,
        o.mode,
        o.canvas@,
        o.cursor,
        tools,
        o.color_input@,
        o.coordinate_input@,
        o.text_buffer@,
        o.text_cursor as int,
        o.should_quit,
    )
}

/// The tools after a settings key: `a`, `n` and `d` flip axes, grid snap and
/// continuous drawing, `1`, `2`, `3` pick the coordinate system.
pub open spec fn settings_tools(t: Tools, c: char) -> Tools {
    if c == 'a' {
        Tools { show_axes: !t.show_axes, ..t }
    } else if c == 'n' {
        Tools { grid_snap: !t.grid_snap, ..t }
    } else if c == 'd' {
        Tools { continuous_draw: !t.continuous_draw, ..t }
    } else if c == '1' {
        Tools { system: CoordinateSystem::Cartesian, ..t }
    } else if c == '2' {
        Tools { system: CoordinateSystem::Polar, ..t }
    } else if c == '3' {
        Tools { system: CoordinateSystem::Cylindrical, ..t }
    } else {
        t
    }
}

/// The glyph that a drawing-mode key selects.
pub open spec fn glyph_key(c: char) -> Option<Glyph> {
    if c == '.' {
        Some(Glyph::Point)
    } else if c == '-' {
        Some(Glyph::Horizontal)
    } else if c == '|' {
        Some(Glyph::Vertical)
    } else if c == '+' {
        Some(Glyph::Cross)
    } else if c == '/' {
        Some(Glyph::DiagRight)
    } else if c == '\\' {
        Some(Glyph::DiagLeft)
    } else {
        None
    }
}

pub open spec fn drawing_tools(t: Tools, c: char) -> Tools {
    match glyph_key(c) {
        Some(g) => Tools { glyph: g, ..t },
        None => settings_tools(t, c),
    }
}

/// The mode that a drawing-mode key enters.
pub open spec fn drawing_mode_after(c: char) -> Mode {
    if c == 'f' {
        Mode::Selection
    } else if c == '?' {
        Mode::Settings
    } else if c == 'x' {
        Mode::ColorSelection
    } else if c == 'g' {
        Mode::CoordinateInput
    } else if c == 'i' {
        Mode::TypstInput
    } else if c == 'r' {
        Mode::PdfRender
    } else {
        Mode::Drawing
    }
}

pub open spec fn is_move_key(c: char) -> bool {
    c == 'h' || c == 'j' || c == 'k' || c == 'l'
}

/// Horizontal step of a movement key: `h` left, `l` right.
pub open spec fn key_dx(c: char) -> int {
    if c == 'h' {
        -1000
    } else if c == 'l' {
        1000
    } else {
        0
    }
}

/// Vertical step of a movement key: `j` down a row, `k` up.
pub open spec fn key_dy(c: char) -> int {
    if c == 'j' {
        1000
    } else if c == 'k' {
        -1000
    } else {
        0
    }
}

pub open spec fn scrolled(c: CursorState, scroll: int) -> CursorState {
    CursorState { scroll_y: scroll as usize, ..c }
}

pub open spec fn drawing_cursor(c: CursorState, t: Tools, k: char) -> CursorState {
    if is_move_key(k) {
        moved(c, t.grid_snap, key_dx(k), key_dy(k))
    } else if k == 'o' {
        CursorState { origin_x: c.x, origin_y: c.y, ..c }
    } else if k == 'J' {
        scrolled(c, clamp(c.scroll_y + 3, 0, MAX_SCROLL as int))
    } else if k == 'K' {
        scrolled(c, clamp(c.scroll_y - 3, 0, MAX_SCROLL as int))
    } else {
        c
    }
}

pub open spec fn drawing_canvas(s: Seq<Option<Glyph>>, c: CursorState, t: Tools, k: char) -> Seq<
    Option<Glyph>,
> {
    if is_move_key(k) {
        after_step(s, moved(c, t.grid_snap, key_dx(k), key_dy(k)), t)
    } else if k == ' ' {
        s.update(index_of(c.row(), c.col()), Some(t.glyph))
    } else if k == 'c' {
        blank_cells()
    } else {
        s
    }
}

/// Drawing mode: movement, placing, tool and mode keys, quit.
pub open spec fn drawing_step(o: &Editor, n: &Editor, key: Key, act: Action) -> bool {
    match key {
        Key::Char(k) => {
            &&& act == (if k == 's' {
                Action::Export
            } else if k == 'r' {
                Action::OpenViewer
            } else {
                Action::Nothing
            })
            &&& state_is(
                n,
                drawing_mode_after(k),
                drawing_canvas(o.canvas@, o.cursor, o.tools, k),
                drawing_cursor(o.cursor, o.tools, k),
                drawing_tools(o.tools, k),
                o.color_input@,
                o.coordinate_input@,
                o.text_buffer@,
                o.text_cursor as int,
                o.should_quit || k == 'q',
            )
        },
        _ => act == Action::Nothing && only_mode(o, n, o.mode),
    }
}

/// Selection mode: a key of the keyboard grid jumps there, within the
/// visible rows, and returns to drawing; `Esc` returns.
pub open spec fn selection_step(o: &Editor, n: &Editor, key: Key) -> bool {
    match key {
        Key::Esc => only_mode(o, n, Mode::Drawing),
        Key::Char(k) => match key_position(k) {
            Some(p) => state_is(
                n,
                Mode::Drawing,
                o.canvas@,
                CursorState {
                    x: (clamp(p.0, 0, WIDTH - 1) * 1000) as i64,
                    y: (clamp(p.1, 0, 39) * 1000) as i64,
                    ..o.cursor
                },
                o.tools,
                o.color_input@,
                o.coordinate_input@,
                o.text_buffer@,
                o.text_cursor as int,
                o.should_quit,
            ),
            None => only_mode(o, n, o.mode),
        },
        _ => only_mode(o, n, o.mode),
    }
}

pub open spec fn popped(s: Seq<char>) -> Seq<char> {
    if s.len() > 0 {
        s.drop_last()
    } else {
        s
    }
}

pub open spec fn with_color_input(o: &Editor, n: &Editor, b: Seq<char>) -> bool {
    state_is(
        n,
        o.mode,
        o.canvas@,
        o.cursor,
        o.tools,
        b,
        o.coordinate_input@,
        o.text_buffer@,
        o.text_cursor as int,
        o.should_quit,
    )
}

/// The color that `Enter` leaves: the buffer's if it is six hex digits.
pub open spec fn entered_color(t: Tools, b: Seq<char>) -> Tools {
    if is_hex_triple(b) {
        Tools {
            color: Rgb {
                r: byte_of(b[0], b[1]) as u8,
                g: byte_of(b[2], b[3]) as u8,
                b: byte_of(b[4], b[5]) as u8,
            },
            ..t
        }
    } else {
        t
    }
}

/// Color selection: up to six hex digits, upper-cased; `Enter` applies them
/// when they are six, `Esc` drops them; both return to drawing.
pub open spec fn color_step(o: &Editor, n: &Editor, key: Key) -> bool {
    match key {
        Key::Esc => state_is(
            n,
            Mode::Drawing,
            o.canvas@,
            o.cursor,
            o.tools,
            Seq::empty(),
            o.coordinate_input@,
            o.text_buffer@,
            o.text_cursor as int,
            o.should_quit,
        ),
        Key::Enter => state_is(
            n,
            Mode::Drawing,
            o.canvas@,
            o.cursor,
            entered_color(o.tools, o.color_input@),
            Seq::empty(),
            o.coordinate_input@,
            o.text_buffer@,
            o.text_cursor as int,
            o.should_quit,
        ),
        Key::Backspace => with_color_input(o, n, popped(o.color_input@)),
        Key::Char(k) => with_color_input(
            o,
            n,
            if is_hex_digit(k) && o.color_input@.len() < 6 {
                o.color_input@.push(upper_of(k))
            } else {
                o.color_input@
            },
        ),
        Key::Other => only_mode(o, n, o.mode),
    }
}

pub open spec fn is_coordinate_char(c: char) -> bool {
    ('0' <= c && c <= '9') || c == '.' || c == ',' || c == ' ' || c == '-'
}

/// The cursor at offset (`dx`, `dy`) from the origin, `dy` upwards, clamped
/// to the canvas.
pub open spec fn placed(c: CursorState, dx: int, dy: int) -> CursorState {
    CursorState {
        x: clamp(c.origin_x + dx, 0, MAX_X as int) as i64,
        y: clamp(c.origin_y - dy, 0, MAX_Y as int) as i64,
        ..c
    }
}

/// Cursor and action after coordinates `b` are entered: Cartesian ones move
/// the cursor; polar and cylindrical ones are handed out to be projected.
/// Input with another number of fields, or a field that is no number,
/// changes nothing.
pub open spec fn coordinate_outcome(sys: CoordinateSystem, b: Seq<char>, c: CursorState) -> (
    CursorState,
    Action,
) {
    match sys {
        CoordinateSystem::Cartesian => match fields_from(b, 0, 2) {
            Some(v) => (placed(c, v[0], v[1]), Action::Nothing),
            None => (c, Action::Nothing),
        },
        CoordinateSystem::Polar => match fields_from(b, 0, 2) {
            Some(v) => (c, Action::Polar(v[0] as i64, v[1] as i64)),
            None => (c, Action::Nothing),
        },
        CoordinateSystem::Cylindrical => match fields_from(b, 0, 3) {
            Some(v) => (c, Action::Cylindrical(v[0] as i64, v[1] as i64, v[2] as i64)),
            None => (c, Action::Nothing),
        },
    }
}

pub open spec fn with_coordinate_input(o: &Editor, n: &Editor, b: Seq<char>) -> bool {
    state_is(
        n,
        o.mode,
        o.canvas@,
        o.cursor,
        o.tools,
        o.color_input@,
        b,
        o.text_buffer@,
        o.text_cursor as int,
        o.should_quit,
    )
}

/// Coordinate input: up to twenty digits, `.`, `,`, spaces and `-`;
/// `Enter` applies them, `Esc` drops them; both return to drawing.
pub open spec fn coordinate_step(o: &Editor, n: &Editor, key: Key, act: Action) -> bool {
    match key {
        Key::Esc => act == Action::Nothing && state_is(
            n,
            Mode::Drawing,
            o.canvas@,
            o.cursor,
            o.tools,
            o.color_input@,
            Seq::empty(),
            o.text_buffer@,
            o.text_cursor as int,
            o.should_quit,
        ),
        Key::Enter => {
            let out = coordinate_outcome(o.tools.system, o.coordinate_input@, o.cursor);
            &&& act == out.1
            &&& state_is(
                n,
                Mode::Drawing,
                o.canvas@,
                out.0,
                o.tools,
                o.color_input@,
                Seq::empty(),
                o.text_buffer@,
                o.text_cursor as int,
                o.should_quit,
            )
        },
        Key::Backspace => act == Action::Nothing && with_coordinate_input(
            o,
            n,
            popped(o.coordinate_input@),
        ),
        Key::Char(k) => act == Action::Nothing && with_coordinate_input(
            o,
            n,
            if is_coordinate_char(k) && o.coordinate_input@.len() < 20 {
                o.coordinate_input@.push(k)
            } else {
                o.coordinate_input@
            },
        ),
        Key::Other => act == Action::Nothing && only_mode(o, n, o.mode),
    }
}

/// Control characters: U+0000 to U+001F and U+007F to U+009F.
pub open spec fn is_control(c: char) -> bool {
    (c as u32) < 0x20 || (0x7f <= (c as u32) && (c as u32) <= 0x9f)
}

/// The closer typed after an opening delimiter.
pub open spec fn closer_of(c: char) -> Option<char> {
    if c == '(' {
        Some(')')
    } else if c == '[' {
        Some(']')
    } else if c == '{' {
        Some('}')
    } else if c == '$' || c == '"' || c == '\'' {
        Some(c)
    } else {
        None
    }
}

/// The text buffer after character `c` is typed at position `i`: it goes in
/// there, and an opener's closer goes in right after it.
pub open spec fn typed_buffer(b: Seq<char>, i: int, c: char) -> Seq<char> {
    if is_control(c) {
        b
    } else {
        match closer_of(c) {
            Some(d) => b.insert(i, c).insert(i + 1, d),
            None => b.insert(i, c),
        }
    }
}

/// The insertion point after character `c` is typed at `i`: right after it,
/// so between an opener and its closer.
pub open spec fn typed_index(i: int, c: char) -> int {
    if is_control(c) {
        i
    } else {
        i + 1
    }
}

/// The text buffer after `Backspace` at position `i` of a non-empty buffer:
/// the character before `i` goes, or the last one when `i` is at the start.
pub open spec fn erased_buffer(b: Seq<char>, i: int) -> Seq<char> {
    if i > 0 {
        b.remove(i - 1)
    } else {
        b.drop_last()
    }
}

pub open spec fn erased_index(i: int) -> int {
    if i > 0 {
        i - 1
    } else {
        0
    }
}

/// Column where character `i` of a text typed from column `col` lands: the
/// last column takes all that would pass it.
pub open spec fn text_column(col: int, i: int) -> int {
    if col + i >= WIDTH - 1 {
        WIDTH - 1
    } else {
        col + i
    }
}

/// The cells after `b` is written as text from (`row`, `col`) rightwards,
/// one character per column, later characters overwriting earlier ones.
pub open spec fn typed(s: Seq<Option<Glyph>>, row: int, col: int, b: Seq<char>) -> Seq<
    Option<Glyph>,
>
    decreases b.len(),
{
    if b.len() == 0 {
        s
    } else {
        typed(s, row, col, b.drop_last()).update(
            index_of(row, text_column(col, b.len() - 1)),
            Some(Glyph::Text(b.last())),
        )
    }
}

/// Text entry: typed characters go in at the insertion point, with openers
/// closed at once;
/// `Enter` writes them from the cursor, moves one row down to the origin's
/// column and returns to drawing; `Backspace` drops the character before the
/// insertion point, or on an empty buffer steps left and erases that cell;
/// `Esc` drops the buffer and returns.
pub open spec fn typst_step(o: &Editor, n: &Editor, key: Key) -> bool {
    match key {
        Key::Esc => state_is(
            n,
            Mode::Drawing,
            o.canvas@,
            o.cursor,
            o.tools,
            o.color_input@,
            o.coordinate_input@,
            Seq::empty(),
            0,
            o.should_quit,
        ),
        Key::Enter => {
            let written = typed(o.canvas@, o.cursor.row(), o.cursor.col(), o.text_buffer@);
            let m = moved(o.cursor, o.tools.grid_snap, 0, 1000);
            state_is(
                n,
                Mode::Drawing,
                after_step(written, m, o.tools),
                CursorState { x: m.origin_x, ..m },
                o.tools,
                o.color_input@,
                o.coordinate_input@,
                Seq::empty(),
                0,
                o.should_quit,
            )
        },
        Key::Backspace => if o.text_buffer@.len() > 0 {
            state_is(
                n,
                o.mode,
                o.canvas@,
                o.cursor,
                o.tools,
                o.color_input@,
                o.coordinate_input@,
                erased_buffer(o.text_buffer@, o.text_cursor as int),
                erased_index(o.text_cursor as int),
                o.should_quit,
            )
        } else {
            let m = moved(o.cursor, o.tools.grid_snap, -1000, 0);
            state_is(
                n,
                o.mode,
                after_step(o.canvas@, m, o.tools).update(index_of(m.row(), m.col()), None),
                m,
                o.tools,
                o.color_input@,
                o.coordinate_input@,
                o.text_buffer@,
                o.text_cursor as int,
                o.should_quit,
            )
        },
        Key::Char(k) => state_is(
            n,
            o.mode,
            o.canvas@,
            o.cursor,
            o.tools,
            o.color_input@,
            o.coordinate_input@,
            typed_buffer(o.text_buffer@, o.text_cursor as int, k),
            typed_index(o.text_cursor as int, k),
            o.should_quit,
        ),
        Key::Other => only_mode(o, n, o.mode),
    }
}

/// Settings: the settings keys change tools in place; `Esc` or `?` returns.
pub open spec fn settings_step(o: &Editor, n: &Editor, key: Key) -> bool {
    match key {
        Key::Esc => only_mode(o, n, Mode::Drawing),
        Key::Char(k) => if k == '?' {
            only_mode(o, n, Mode::Drawing)
        } else {
            with_tools(o, n, settings_tools(o.tools, k))
        },
        _ => only_mode(o, n, o.mode),
    }
}

/// Viewing the document: `Esc` or `r` returns to drawing.
pub open spec fn render_step(o: &Editor, n: &Editor, key: Key) -> bool {
    if key == Key::Esc || key == Key::Char('r') {
        only_mode(o, n, Mode::Drawing)
    } else {
        only_mode(o, n, o.mode)
    }
}

/// One key handled in the mode of `o`, giving `n` and the action `act`.
pub open spec fn step(o: &Editor, n: &Editor, key: Key, act: Action) -> bool {
    match o.mode {
        Mode::Drawing => drawing_step(o, n, key, act),
        Mode::Selection => act == Action::Nothing && selection_step(o, n, key),
        Mode::ColorSelection => act == Action::Nothing && color_step(o, n, key),
        Mode::CoordinateInput => coordinate_step(o, n, key, act),
        Mode::TypstInput => act == Action::Nothing && typst_step(o, n, key),
        Mode::Settings => act == Action::Nothing && settings_step(o, n, key),
        Mode::PdfRender => act == Action::Nothing && render_step(o, n, key),
    }
}

impl Editor {
    /// Writes the current glyph at the cursor's cell.
    pub fn draw_char(&mut self)
        requires
            old(self).wf(),
        ensures
            final(self).wf(),
            state_is(
                &*final(self),
                old(self).mode,
                old(self).canvas@.update(
                    index_of(old(self).cursor.row(), old(self).cursor.col()),
                    Some(old(self).tools.glyph),
                ),
                old(self).cursor,
                old(self).tools,
                old(self).color_input@,
                old(self).coordinate_input@,
                old(self).text_buffer@,
                old(self).text_cursor as int,
                old(self).should_quit,
            ),
    {
        let col = (self.cursor.x / UNIT) as usize;
        let row = (self.cursor.y / UNIT) as usize;
        let g = self.tools.glyph;
        self.canvas.place(row, col, g);
    }

    /// Empties the whole canvas.
    pub fn clear_canvas(&mut self)
        requires
            old(self).wf(),
        ensures
            final(self).wf(),
            final(self).keeps_inputs(&*old(self)),
            final(self).cursor == old(self).cursor,
            final(self).canvas@ == blank_cells(),
    {
        self.canvas.clear_all();
    }

    /// Scrolls the view three rows up, not past the first row.
    pub fn scroll_up(&mut self)
        requires
            old(self).wf(),
        ensures
            final(self).wf(),
            final(self).keeps_inputs(&*old(self)),
            final(self).canvas@ == old(self).canvas@,
            final(self).cursor == scrolled(
                old(self).cursor,
                clamp(old(self).cursor.scroll_y - 3, 0, MAX_SCROLL as int),
            ),
    {
        let s = self.cursor.scroll_y;
        self.cursor.scroll_y = if s >= 3 { s - 3 } else { 0 };
    }

    /// Scrolls the view three rows down, not past the last screen.
    pub fn scroll_down(&mut self)
        requires
            old(self).wf(),
        ensures
            final(self).wf(),
            final(self).keeps_inputs(&*old(self)),
            final(self).canvas@ == old(self).canvas@,
            final(self).cursor == scrolled(
                old(self).cursor,
                clamp(old(self).cursor.scroll_y + 3, 0, MAX_SCROLL as int),
            ),
    {
        let s = self.cursor.scroll_y + 3;
        self.cursor.scroll_y = if s > MAX_SCROLL { MAX_SCROLL } else { s };
    }

    /// Puts the cursor at offset (`dx`, `dy`) thousandths from the origin,
    /// `dy` counting upwards, clamped to the canvas.
    pub fn place_at_offset(&mut self, dx: i64, dy: i64)
        requires
            old(self).wf(),
        ensures
            final(self).wf(),
            final(self).keeps_inputs(&*old(self)),
            final(self).canvas@ == old(self).canvas@,
            final(self).cursor == placed(old(self).cursor, dx as int, dy as int),
    {
        let sx = clamp_i64(dx, -MAX_DELTA, MAX_DELTA);
        let sy = clamp_i64(dy, -MAX_DELTA, MAX_DELTA);
        let x = clamp_i64(self.cursor.origin_x + sx, 0, MAX_X);
        let y = clamp_i64(self.cursor.origin_y - sy, 0, MAX_Y);
        self.cursor.x = x;
        self.cursor.y = y;
    }

    /// Reads the coordinate buffer in the active system: a Cartesian pair
    /// moves the cursor, polar and cylindrical values are handed out.
    pub fn apply_coordinates(&mut self) -> (act: Action)
        requires
            old(self).wf(),
        ensures
            final(self).wf(),
            final(self).keeps_inputs(&*old(self)),
            final(self).canvas@ == old(self).canvas@,
            (final(self).cursor, act) == coordinate_outcome(
                old(self).tools.system,
                old(self).coordinate_input@,
                old(self).cursor,
            ),
    {
        match self.tools.system {
            CoordinateSystem::Cartesian => {
                match parse_fields(&self.coordinate_input, 2) {
                    Some(v) => {
                        proof {
                            assert(v@.len() == 2);
                        }
                        let x = v[0];
                        let y = v[1];
                        self.place_at_offset(x, y);
                        Action::Nothing
                    },
                    None => Action::Nothing,
                }
            },
            CoordinateSystem::Polar => {
                match parse_fields(&self.coordinate_input, 2) {
                    Some(v) => {
                        proof {
                            assert(v@.len() == 2);
                        }
                        Action::Polar(v[0], v[1])
                    },
                    None => Action::Nothing,
                }
            },
            CoordinateSystem::Cylindrical => {
                match parse_fields(&self.coordinate_input, 3) {
                    Some(v) => {
                        proof {
                            assert(v@.len() == 3);
                        }
                        Action::Cylindrical(v[0], v[1], v[2])
                    },
                    None => Action::Nothing,
                }
            },
        }
    }

    /// Writes the text buffer as text glyphs from the cursor's cell
    /// rightwards; what passes the last column lands in it.
    pub fn write_text_buffer(&mut self)
        requires
            old(self).wf(),
        ensures
            final(self).wf(),
            final(self).keeps_inputs(&*old(self)),
            final(self).cursor == old(self).cursor,
            final(self).canvas@ == typed(
                old(self).canvas@,
                old(self).cursor.row(),
                old(self).cursor.col(),
                old(self).text_buffer@,
            ),
    {
        let col = (self.cursor.x / UNIT) as usize;
        let row = (self.cursor.y / UNIT) as usize;
        let ghost s0 = self.canvas@;
        let ghost b = self.text_buffer@;
        let n = self.text_buffer.len();
        let mut i: usize = 0;
        proof {
            assert(b.take(0).len() == 0);
        }
        while i < n
            invariant
                old(self).wf(),
                self.wf(),
                self.keeps_inputs(&*old(self)),
                self.cursor == old(self).cursor,
                s0 == old(self).canvas@,
                b == old(self).text_buffer@,
                n == b.len(),
                col as int == self.cursor.col(),
                row as int == self.cursor.row(),
                col < WIDTH,
                row < 200,
                i <= n,
                self.canvas@ == typed(s0, row as int, col as int, b.take(i as int)),
            decreases n - i,
        {
            let x = if i >= WIDTH || col + i >= WIDTH - 1 { WIDTH - 1 } else { col + i };
            proof {
                lemma_index_in_range(row as int, x as int);
            }
            let ch = self.text_buffer[i];
            self.canvas.place(row, x, Glyph::Text(ch));
            proof {
                assert(b.take(i + 1).drop_last() =~= b.take(i as int));
            }
            i = i + 1;
        }
        proof {
            assert(b.take(n as int) =~= b);
        }
    }

    fn handle_drawing_key(&mut self, key: Key) -> (act: Action)
        requires
            old(self).wf(),
            old(self).mode == Mode::Drawing,
        ensures
            final(self).wf(),
            drawing_step(&*old(self), &*final(self), key, act),
    {
        match key {
            Key::Char(c) => {
                if c == 'q' {
                    self.should_quit = true;
                } else if c == 'h' {
                    self.move_by(-UNIT, 0);
                } else if c == 'j' {
                    self.move_by(0, UNIT);
                } else if c == 'k' {
                    self.move_by(0, -UNIT);
                } else if c == 'l' {
                    self.move_by(UNIT, 0);
                } else if c == 'f' {
                    self.mode = Mode::Selection;
                } else if c == ' ' {
                    self.draw_char();
                } else if c == '?' {
                    self.mode = Mode::Settings;
                } else if c == 'c' {
                    self.clear_canvas();
                } else if c == 's' {
                    return Action::Export;
                } else if c == 'x' {
                    self.mode = Mode::ColorSelection;
                } else if c == 'g' {
                    self.mode = Mode::CoordinateInput;
                } else if c == 'i' {
                    self.mode = Mode::TypstInput;
                } else if c == 'o' {
                    self.cursor.origin_x = self.cursor.x;
                    self.cursor.origin_y = self.cursor.y;
                } else if c == 'J' {
                    self.scroll_down();
                } else if c == 'K' {
                    self.scroll_up();
                } else if c == 'r' {
                    self.mode = Mode::PdfRender;
                    return Action::OpenViewer;
                } else if c == '.' {
                    self.tools.glyph = Glyph::Point;
                } else if c == '-' {
                    self.tools.glyph = Glyph::Horizontal;
                } else if c == '|' {
                    self.tools.glyph = Glyph::Vertical;
                } else if c == '+' {
                    self.tools.glyph = Glyph::Cross;
                } else if c == '/' {
                    self.tools.glyph = Glyph::DiagRight;
                } else if c == '\\' {
                    self.tools.glyph = Glyph::DiagLeft;
                } else {
                    self.apply_setting_key(c);
                }
                Action::Nothing
            },
            _ => Action::Nothing,
        }
    }

    fn apply_setting_key(&mut self, c: char)
        requires
            old(self).wf(),
        ensures
            final(self).wf(),
            with_tools(&*old(self), &*final(self), settings_tools(old(self).tools, c)),
    {
        if c == 'a' {
            self.tools.show_axes = !self.tools.show_axes;
        } else if c == 'n' {
            self.tools.grid_snap = !self.tools.grid_snap;
        } else if c == 'd' {
            self.tools.continuous_draw = !self.tools.continuous_draw;
        } else if c == '1' {
            self.tools.system = CoordinateSystem::Cartesian;
        } else if c == '2' {
            self.tools.system = CoordinateSystem::Polar;
        } else if c == '3' {
            self.tools.system = CoordinateSystem::Cylindrical;
        }
    }

    fn handle_selection_key(&mut self, key: Key)
        requires
            old(self).wf(),
            old(self).mode == Mode::Selection,
        ensures
            final(self).wf(),
            selection_step(&*old(self), &*final(self), key),
    {
        match key {
            Key::Esc => {
                self.mode = Mode::Drawing;
            },
            Key::Char(c) => {
                match keyboard_position(c) {
                    Some((x, y)) => {
                        let cx = if x > WIDTH - 1 { WIDTH - 1 } else { x };
                        let cy = if y > 39 { 39 } else { y };
                        self.cursor.x = cx as i64 * UNIT;
                        self.cursor.y = cy as i64 * UNIT;
                        self.mode = Mode::Drawing;
                    },
                    None => {},
                }
            },
            _ => {},
        }
    }

    fn handle_color_key(&mut self, key: Key)
        requires
            old(self).wf(),
            old(self).mode == Mode::ColorSelection,
        ensures
            final(self).wf(),
            color_step(&*old(self), &*final(self), key),
    {
        match key {
            Key::Esc => {
                self.mode = Mode::Drawing;
                self.color_input = Vec::new();
            },
            Key::Enter => {
                match parse_hex_color(&self.color_input) {
                    Some(color) => {
                        self.tools.color = color;
                    },
                    None => {},
                }
                self.mode = Mode::Drawing;
                self.color_input = Vec::new();
            },
            Key::Backspace => {
                self.color_input.pop();
            },
            Key::Char(c) => {
                if hex_digit_check(c) && self.color_input.len() < 6 {
                    self.color_input.push(to_upper(c));
                }
            },
            Key::Other => {},
        }
    }

    fn handle_coordinate_key(&mut self, key: Key) -> (act: Action)
        requires
            old(self).wf(),
            old(self).mode == Mode::CoordinateInput,
        ensures
            final(self).wf(),
            coordinate_step(&*old(self), &*final(self), key, act),
    {
        match key {
            Key::Esc => {
                self.mode = Mode::Drawing;
                self.coordinate_input = Vec::new();
                Action::Nothing
            },
            Key::Enter => {
                let act = self.apply_coordinates();
                self.mode = Mode::Drawing;
                self.coordinate_input = Vec::new();
                act
            },
            Key::Backspace => {
                self.coordinate_input.pop();
                Action::Nothing
            },
            Key::Char(c) => {
                if (('0' <= c && c <= '9') || c == '.' || c == ',' || c == ' ' || c == '-')
                    && self.coordinate_input.len() < 20 {
                    self.coordinate_input.push(c);
                }
                Action::Nothing
            },
            Key::Other => Action::Nothing,
        }
    }

    fn handle_typst_key(&mut self, key: Key)
        requires
            old(self).wf(),
            old(self).mode == Mode::TypstInput,
        ensures
            final(self).wf(),
            typst_step(&*old(self), &*final(self), key),
    {
        match key {
            Key::Esc => {
                self.mode = Mode::Drawing;
                self.text_buffer = Vec::new();
                self.text_cursor = 0;
            },
            Key::Enter => {
                self.write_text_buffer();
                self.move_by(0, UNIT);
                self.cursor.x = self.cursor.origin_x;
                self.text_buffer = Vec::new();
                self.text_cursor = 0;
                self.mode = Mode::Drawing;
            },
            Key::Backspace => {
                if self.text_buffer.len() > 0 {
                    if self.text_cursor > 0 {
                        self.text_buffer.remove(self.text_cursor - 1);
                        self.text_cursor = self.text_cursor - 1;
                    } else {
                        self.text_buffer.pop();
                    }
                } else {
                    self.move_by(-UNIT, 0);
                    let col = (self.cursor.x / UNIT) as usize;
                    let row = (self.cursor.y / UNIT) as usize;
                    self.canvas.clear(row, col);
                }
            },
            Key::Char(c) => {
                let code = c as u32;
                if !(code < 0x20 || (0x7f <= code && code <= 0x9f)) {
                    let i = self.text_cursor;
                    self.text_buffer.insert(i, c);
                    let len = self.text_buffer.len();
                    proof {
                        assert(i < len);
                    }
                    let j = i + 1;
                    if c == '(' {
                        self.text_buffer.insert(j, ')');
                    } else if c == '[' {
                        self.text_buffer.insert(j, ']');
                    } else if c == '{' {
                        self.text_buffer.insert(j, '}');
                    } else if c == '$' || c == '"' || c == '\'' {
                        self.text_buffer.insert(j, c);
                    }
                    self.text_cursor = j;
                }
            },
            Key::Other => {},
        }
    }

    fn handle_settings_key(&mut self, key: Key)
        requires
            old(self).wf(),
            old(self).mode == Mode::Settings,
        ensures
            final(self).wf(),
            settings_step(&*old(self), &*final(self), key),
    {
        match key {
            Key::Esc => {
                self.mode = Mode::Drawing;
            },
            Key::Char(c) => {
                if c == '?' {
                    self.mode = Mode::Drawing;
                } else {
                    self.apply_setting_key(c);
                }
            },
            _ => {},
        }
    }

    fn handle_render_key(&mut self, key: Key)
        requires
            old(self).wf(),
            old(self).mode == Mode::PdfRender,
        ensures
            final(self).wf(),
            render_step(&*old(self), &*final(self), key),
    {
        match key {
            Key::Esc => {
                self.mode = Mode::Drawing;
            },
            Key::Char(c) => {
                if c == 'r' {
                    self.mode = Mode::Drawing;
                }
            },
            _ => {},
        }
    }

    /// Handles one key in the active mode and returns the work it asks of
    /// the surroundings.
    pub fn handle_key(&mut self, key: Key) -> (act: Action)
        requires
            old(self).wf(),
        ensures
            final(self).wf(),
            step(&*old(self), &*final(self), key, act),
    {
        match self.mode {
            Mode::Drawing => self.handle_drawing_key(key),
            Mode::Selection => {
                self.handle_selection_key(key);
                Action::Nothing
            },
            Mode::ColorSelection => {
                self.handle_color_key(key);
                Action::Nothing
            },
            Mode::CoordinateInput => self.handle_coordinate_key(key),
            Mode::TypstInput => {
                self.handle_typst_key(key);
                Action::Nothing
            },
            Mode::Settings => {
                self.handle_settings_key(key);
                Action::Nothing
            },
            Mode::PdfRender => {
                self.handle_render_key(key);
                Action::Nothing
            },
        }
    }
}

/// The cursor relative to the origin, thousandths, `y` counting upwards.
pub open spec fn relative(c: CursorState) -> (int, int) {
    (c.x - c.origin_x, c.origin_y - c.y)
}

impl Editor {
    /// The cursor relative to the origin, in thousandths of a cell, with the
    /// vertical axis pointing up.
    pub fn relative_coordinates(&self) -> (r: (i64, i64))
        requires
            self.wf(),
        ensures
            (r.0 as int, r.1 as int) == relative(self.cursor),
    {
        (self.cursor.x - self.cursor.origin_x, self.cursor.origin_y - self.cursor.y)
    }

    /// The export of the canvas.
    pub fn export(&self) -> (r: Vec<char>)
        requires
            self.wf(),
        ensures
            r@ == export_of(self.canvas@),
    {
        export_text(&self.canvas)
    }
}

/// Coordinates entered in the Cartesian system read back unchanged relative
/// to the origin, whenever the point they name lies on the canvas.
pub proof fn lemma_cartesian_round_trip(o: &Editor, n: &Editor, act: Action)
    requires
        o.wf(),
        o.mode == Mode::CoordinateInput,
        o.tools.system == CoordinateSystem::Cartesian,
        step(o, n, Key::Enter, act),
        fields_from(o.coordinate_input@, 0, 2) is Some,
        0 <= o.cursor.origin_x + fields_from(o.coordinate_input@, 0, 2)->0[0] <= MAX_X,
        0 <= o.cursor.origin_y - fields_from(o.coordinate_input@, 0, 2)->0[1] <= MAX_Y,
    ensures
        relative(n.cursor) == (
            fields_from(o.coordinate_input@, 0, 2)->0[0],
            fields_from(o.coordinate_input@, 0, 2)->0[1],
        ),
        n.mode == Mode::Drawing,
{
}

/// `Esc` in every mode but drawing returns to drawing, empties the input
/// buffers and leaves canvas, cursor and tools as they were.
pub proof fn lemma_escape_returns_to_drawing(o: &Editor, n: &Editor, act: Action)
    requires
        o.wf(),
        o.mode != Mode::Drawing,
        step(o, n, Key::Esc, act),
    ensures
        n.mode == Mode::Drawing,
        n.color_input@.len() == 0,
        n.coordinate_input@.len() == 0,
        n.text_buffer@.len() == 0,
        n.text_cursor == 0,
        n.canvas@ == o.canvas@,
        n.cursor == o.cursor,
        n.tools == o.tools,
        act == Action::Nothing,
{
}

/// A stroke paints both the cell the cursor left and the cell it reached.
pub proof fn lemma_stroke_paints_ends(s: Seq<Option<Glyph>>, c: CursorState, g: Glyph)
    requires
        c.wf(),
        s.len() == CELLS,
    ensures
        stroked(s, c, g)[index_of(c.last_y as int / 1000, c.last_x as int / 1000)] == Some(g),
        stroked(s, c, g)[index_of(c.row(), c.col())] == Some(g),
{
    let (lx, ly) = (c.last_x as int / 1000, c.last_y as int / 1000);
    let p = line_path(lx, ly, c.col(), c.row());
    lemma_line_ends(lx, ly, c.col(), c.row());
    lemma_index_in_range(ly, lx);
    lemma_index_in_range(c.row(), c.col());
    assert(p[0] == (lx, ly));
    assert(covers(p, index_of(ly, lx)));
    assert(p[p.len() - 1] == (c.col(), c.row()));
    assert(covers(p, index_of(c.row(), c.col())));
}

} // verus!
