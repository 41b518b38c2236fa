use vstd::prelude::*;
use crate::canvas::{Canvas, CELLS, VIRTUAL_HEIGHT};
use crate::decimal::{trim_start, trim_end, trimmed, white_check};
use crate::glyph::{Glyph, display_of};

verus! {

/// The character that shows a cell; a space for an empty one.
pub open spec fn cell_char(c: Option<Glyph>) -> char {
    match c {
        Some(g) => display_of(g),
        None => ' ',
    }
}

pub open spec fn cell_chars(row: Seq<Option<Glyph>>) -> Seq<char> {
    row.map_values(|c: Option<Glyph>| cell_char(c))
}

/// A row as fixed-width text, trailing white space removed.
pub open spec fn verbatim_line(row: Seq<Option<Glyph>>) -> Seq<char> {
    trim_end(cell_chars(row))
}

pub open spec fn strip_start(row: Seq<Option<Glyph>>) -> Seq<Option<Glyph>>
    decreases row.len(),
{
    if row.len() > 0 && row[0] is None {
        strip_start(row.drop_first())
    } else {
        row
    }
}

pub open spec fn strip_end(row: Seq<Option<Glyph>>) -> Seq<Option<Glyph>>
    decreases row.len(),
{
    if row.len() > 0 && row.last() is None {
        strip_end(row.drop_last())
    } else {
        row
    }
}

/// A row as running text: the cells from the first filled one to the last,
/// empty ones inside as spaces; empty for an empty row.
pub open spec fn text_line(row: Seq<Option<Glyph>>) -> Seq<char> {
    cell_chars(strip_end(strip_start(row)))
}

fn cell_to_char(c: Option<Glyph>) -> (r: char)
    ensures
        r == cell_char(c),
{
    match c {
        Some(g) => g.display_char(),
        None => ' ',
    }
}

fn chars_of(cells: &Vec<Option<Glyph>>, a: usize, b: usize) -> (r: Vec<char>)
    requires
        a <= b <= cells@.len(),
    ensures
        r@ == cell_chars(cells@.subrange(a as int, b as int)),
{
    let mut r: Vec<char> = Vec::new();
    let mut i = a;
    while i < b
        invariant
            a <= i <= b <= cells@.len(),
            r@ == cell_chars(cells@.subrange(a as int, i as int)),
        decreases b - i,
    {
        r.push(cell_to_char(cells[i]));
        proof {
            assert(r@ =~= cell_chars(cells@.subrange(a as int, i + 1)));
        }
        i = i + 1;
    }
    r
}

/// A row as fixed-width text, see `verbatim_line`.
pub fn verbatim_row(cells: &Vec<Option<Glyph>>) -> (r: Vec<char>)
    ensures
        r@ == verbatim_line(cells@),
{
    let n = cells.len();
    let mut b: usize = n;
    proof {
        assert(cells@.subrange(0, n as int) =~= cells@);
    }
    while b > 0 && white_check(cell_to_char(cells[b - 1]))
        invariant
            b <= n == cells@.len(),
            trim_end(cell_chars(cells@.subrange(0, b as int))) == verbatim_line(cells@),
        decreases b,
    {
        proof {
            let t = cell_chars(cells@.subrange(0, b as int));
            assert(t.drop_last() =~= cell_chars(cells@.subrange(0, b - 1)));
        }
        b = b - 1;
    }
    proof {
        let t = cell_chars(cells@.subrange(0, b as int));
        if b > 0 {
            assert(t.last() == cell_char(cells@[b - 1]));
        }
    }
    chars_of(cells, 0, b)
}

/// A row as running text, see `text_line`.
pub fn text_row(cells: &Vec<Option<Glyph>>) -> (r: Vec<char>)
    ensures
        r@ == text_line(cells@),
{
    let n = cells.len();
    let mut a: usize = 0;
    proof {
        assert(cells@.subrange(0, n as int) =~= cells@);
    }
    while a < n && cells[a].is_none()
        invariant
            a <= n == cells@.len(),
            strip_start(cells@.subrange(a as int, n as int)) == strip_start(cells@),
        decreases n - a,
    {
        proof {
            assert(cells@.subrange(a as int, n as int).drop_first() =~= cells@.subrange(
                a + 1,
                n as int,
            ));
        }
        a = a + 1;
    }
    proof {
        assert(strip_start(cells@.subrange(a as int, n as int)) == cells@.subrange(a as int, n as int));
    }
    let mut b: usize = n;
    while b > a && cells[b - 1].is_none()
        invariant
            a <= b <= n == cells@.len(),
            strip_end(cells@.subrange(a as int, b as int)) == strip_end(strip_start(cells@)),
        decreases b,
    {
        proof {
            assert(cells@.subrange(a as int, b as int).drop_last() =~= cells@.subrange(
                a as int,
                b - 1,
            ));
        }
        b = b - 1;
    }
    proof {
        let t = cells@.subrange(a as int, b as int);
        if t.len() > 0 {
            assert(t.last() == cells@[b - 1]);
        }
        assert(strip_end(t) == t);
    }
    chars_of(cells, a, b)
}

pub open spec fn count_char(s: Seq<char>, c: char) -> nat
    decreases s.len(),
{
    if s.len() == 0 {
        0
    } else {
        count_char(s.drop_last(), c) + if s.last() == c {
            1nat
        } else {
            0nat
        }
    }
}

/// A paragraph that reads as one equation: a single `=` and some operator.
pub open spec fn is_equation(t: Seq<char>) -> bool {
    count_char(t, '=') == 1 && (t.contains('+') || t.contains('-') || t.contains('*')
        || t.contains('/'))
}

/// A finished paragraph as emitted: trimmed; kept as it is when it holds a
/// `$`, wrapped in `$` when it reads as an equation, else plain text.
pub open spec fn emitted(p: Seq<char>) -> Seq<char> {
    let t = trim_end(trim_start(p));
    if t.contains('$') {
        t
    } else if is_equation(t) {
        seq!['$'] + t + seq!['$']
    } else {
        t
    }
}

/// The paragraphs that `lines` close, given the open paragraph `para`: an
/// empty line ends a paragraph, followed by a blank line; lines in between
/// join with one space; the last paragraph ends the text.
pub open spec fn paragraphs(lines: Seq<Seq<char>>, para: Seq<char>) -> Seq<char>
    decreases lines.len(),
{
    if lines.len() == 0 {
        if para.len() > 0 {
            emitted(para) + seq!['\n']
        } else {
            Seq::empty()
        }
    } else {
        let l = lines[0];
        if l.len() == 0 {
            if para.len() > 0 {
                emitted(para) + seq!['\n', '\n'] + paragraphs(lines.drop_first(), Seq::empty())
            } else {
                paragraphs(lines.drop_first(), para)
            }
        } else {
            paragraphs(
                lines.drop_first(),
                if para.len() > 0 {
                    para + seq![' '] + l
                } else {
                    l
                },
            )
        }
    }
}

/// The running-text lines of the canvas cells `s`, one per row.
pub open spec fn text_lines(s: Seq<Option<Glyph>>) -> Seq<Seq<char>> {
    Seq::new(VIRTUAL_HEIGHT as nat, |r: int| text_line(Canvas::row_of(s, r)))
}

/// The fixed-width lines of the first `n` rows, each ended by a newline.
pub open spec fn verbatim_block(s: Seq<Option<Glyph>>, n: int) -> Seq<char>
    decreases n,
{
    if n <= 0 {
        Seq::empty()
    } else {
        verbatim_block(s, n - 1) + verbatim_line(Canvas::row_of(s, n - 1)) + seq!['\n']
    }
}

pub open spec fn fence() -> Seq<char> {
    seq!['`', '`', '`', '\n']
}

pub open spec fn has_text(s: Seq<Option<Glyph>>) -> bool {
    exists|k: int| 0 <= k < s.len() && (#[trigger] s[k] matches Some(Glyph::Text(_)))
}

/// The export of the canvas cells `s`: running paragraphs when some cell
/// holds text, else the rows as a fenced fixed-width block.
pub open spec fn export_of(s: Seq<Option<Glyph>>) -> Seq<char> {
    if has_text(s) {
        paragraphs(text_lines(s), Seq::empty())
    } else {
        fence() + verbatim_block(s, VIRTUAL_HEIGHT as int) + fence()
    }
}

fn push_all(out: &mut Vec<char>, v: &Vec<char>)
    ensures
        final(out)@ == old(out)@ + v@,
{
    let mut i: usize = 0;
    while i < v.len()
        invariant
            i <= v@.len(),
            out@ == old(out)@ + v@.take(i as int),
        decreases v@.len() - i,
    {
        out.push(v[i]);
        proof {
            assert(v@.take(i + 1) =~= v@.take(i as int).push(v@[i as int]));
            assert(out@ =~= old(out)@ + v@.take(i + 1));
        }
        i = i + 1;
    }
    proof {
        assert(v@.take(v@.len() as int) =~= v@);
    }
}

fn has_char(s: &Vec<char>, c: char) -> (r: bool)
    ensures
        r == s@.contains(c),
{
    let mut i: usize = 0;
    while i < s.len()
        invariant
            i <= s@.len(),
            forall|j: int| 0 <= j < i ==> s@[j] != c,
        decreases s@.len() - i,
    {
        if s[i] == c {
            return true;
        }
        i = i + 1;
    }
    false
}

fn count_of(s: &Vec<char>, c: char) -> (r: usize)
    ensures
        r as nat == count_char(s@, c),
{
    let mut n: usize = 0;
    let mut i: usize = 0;
    while i < s.len()
        invariant
            i <= s@.len(),
            n as nat == count_char(s@.take(i as int), c),
            n <= i,
        decreases s@.len() - i,
    {
        proof {
            assert(s@.take(i + 1).drop_last() =~= s@.take(i as int));
        }
        if s[i] == c {
            n = n + 1;
        }
        i = i + 1;
    }
    proof {
        assert(s@.take(s@.len() as int) =~= s@);
    }
    n
}

/// A finished paragraph as emitted, see `emitted`.
pub fn emit_paragraph(p: &Vec<char>) -> (r: Vec<char>)
    ensures
        r@ == emitted(p@),
{
    let t = trimmed(p);
    if has_char(&t, '$') {
        t
    } else if count_of(&t, '=') == 1 && (has_char(&t, '+') || has_char(&t, '-') || has_char(
        &t,
        '*',
    ) || has_char(&t, '/')) {
        let mut r: Vec<char> = Vec::new();
        r.push('$');
        push_all(&mut r, &t);
        r.push('$');
        proof {
            assert(r@ =~= seq!['$'] + t@ + seq!['$']);
        }
        r
    } else {
        t
    }
}

fn push_fence(out: &mut Vec<char>)
    ensures
        final(out)@ == old(out)@ + fence(),
{
    out.push('`');
    out.push('`');
    out.push('`');
    out.push('\n');
    proof {
        assert(final(out)@ =~= old(out)@ + fence());
    }
}

/// Whether some cell holds text.
pub fn canvas_has_text(canvas: &Canvas) -> (r: bool)
    requires
        canvas.wf(),
    ensures
        r == has_text(canvas@),
{
    let mut k: usize = 0;
    while k < CELLS
        invariant
            canvas.wf(),
            k <= CELLS,
            forall|j: int| 0 <= j < k ==> !(#[trigger] canvas@[j] matches Some(Glyph::Text(_))),
        decreases CELLS - k,
    {
        proof {
            crate::canvas::lemma_index_in_range(k as int / 80, k as int % 80);
        }
        let c = canvas.get(k / 80, k % 80);
        match c {
            Some(Glyph::Text(_)) => {
                return true;
            },
            _ => {},
        }
        k = k + 1;
    }
    false
}

/// The canvas rows as a fenced fixed-width block.
pub fn export_verbatim(canvas: &Canvas) -> (r: Vec<char>)
    requires
        canvas.wf(),
    ensures
        r@ == fence() + verbatim_block(canvas@, VIRTUAL_HEIGHT as int) + fence(),
{
    let mut out: Vec<char> = Vec::new();
    push_fence(&mut out);
    proof {
        assert(out@ =~= fence() + verbatim_block(canvas@, 0));
    }
    let mut r: usize = 0;
    while r < VIRTUAL_HEIGHT
        invariant
            canvas.wf(),
            r <= VIRTUAL_HEIGHT,
            out@ == fence() + verbatim_block(canvas@, r as int),
        decreases VIRTUAL_HEIGHT - r,
    {
        let cells = canvas.row(r);
        let line = verbatim_row(&cells);
        push_all(&mut out, &line);
        out.push('\n');
        proof {
            assert(out@ =~= fence() + verbatim_block(canvas@, r + 1));
        }
        r = r + 1;
    }
    push_fence(&mut out);
    out
}

/// The canvas as running paragraphs, see `paragraphs`.
pub fn export_paragraphs(canvas: &Canvas) -> (r: Vec<char>)
    requires
        canvas.wf(),
    ensures
        r@ == paragraphs(text_lines(canvas@), Seq::empty()),
{
    let ghost lines = text_lines(canvas@);
    let mut out: Vec<char> = Vec::new();
    let mut para: Vec<char> = Vec::new();
    let mut r: usize = 0;
    proof {
        assert(lines.skip(0) =~= lines);
        assert(para@ =~= Seq::<char>::empty());
        assert(out@ + paragraphs(lines, Seq::empty()) =~= paragraphs(lines, Seq::empty()));
    }
    while r < VIRTUAL_HEIGHT
        invariant
            canvas.wf(),
            r <= VIRTUAL_HEIGHT,
            lines == text_lines(canvas@),
            out@ + paragraphs(lines.skip(r as int), para@) == paragraphs(lines, Seq::empty()),
        decreases VIRTUAL_HEIGHT - r,
    {
        let cells = canvas.row(r);
        let l = text_row(&cells);
        let ghost rest = lines.skip(r as int);
        proof {
            assert(rest[0] == l@);
            assert(rest.drop_first() =~= lines.skip(r + 1));
        }
        let ghost old_out = out@;
        let ghost old_para = para@;
        if l.len() == 0 {
            if para.len() > 0 {
                let e = emit_paragraph(&para);
                push_all(&mut out, &e);
                out.push('\n');
                out.push('\n');
                para = Vec::new();
                proof {
                    assert(out@ =~= old_out + (emitted(old_para) + seq!['\n', '\n']));
                    assert(para@ =~= Seq::<char>::empty());
                    assert(out@ + paragraphs(lines.skip(r + 1), para@) =~= old_out + (emitted(
                        old_para,
                    ) + seq!['\n', '\n'] + paragraphs(lines.skip(r + 1), Seq::empty())));
                }
            }
        } else {
            if para.len() > 0 {
                para.push(' ');
                push_all(&mut para, &l);
                proof {
                    assert(para@ =~= old_para + seq![' '] + l@);
                }
            } else {
                para = l;
            }
        }
        r = r + 1;
    }
    proof {
        assert(lines.skip(VIRTUAL_HEIGHT as int).len() == 0);
    }
    if para.len() > 0 {
        let ghost old_out = out@;
        let e = emit_paragraph(&para);
        push_all(&mut out, &e);
        out.push('\n');
        proof {
            assert(out@ =~= old_out + (emitted(para@) + seq!['\n']));
        }
    } else {
        proof {
            assert(out@ + Seq::<char>::empty() =~= out@);
        }
    }
    out
}

/// The export of the canvas, see `export_of`.
pub fn export_text(canvas: &Canvas) -> (r: Vec<char>)
    requires
        canvas.wf(),
    ensures
        r@ == export_of(canvas@),
{
    if canvas_has_text(canvas) {
        export_paragraphs(canvas)
    } else {
        export_verbatim(canvas)
    }
}

} // verus!
