use vstd::prelude::*;
use vstd::arithmetic::mul::*;

verus! {

/// Largest magnitude of a coordinate handed to the rasterizer.
pub const COORD_LIMIT: i64 = 1048576;

pub open spec fn abs(v: int) -> int {
    if v < 0 {
        -v
    } else {
        v
    }
}

pub open spec fn step_toward(a: int, b: int) -> int {
    if a < b {
        1
    } else {
        -1
    }
}

/// The cells that Bresenham's walk visits from (`x`, `y`) with error term
/// `err` towards (`x1`, `y1`), where `dx` is the horizontal distance, `dy`
/// minus the vertical one, and `sx`, `sy` the step directions. `fuel` bounds
/// the number of steps.
pub open spec fn walk(
    x: int,
    y: int,
    err: int,
    x1: int,
    y1: int,
    dx: int,
    dy: int,
    sx: int,
    sy: int,
    fuel: nat,
) -> Seq<(int, int)>
    decreases fuel,
{
    if (x == x1 && y == y1) || fuel == 0 {
        seq![(x, y)]
    } else {
        let e2 = 2 * err;
        let nx = if e2 >= dy { x + sx } else { x };
        let err1 = if e2 >= dy { err + dy } else { err };
        let ny = if e2 <= dx { y + sy } else { y };
        let err2 = if e2 <= dx { err1 + dx } else { err1 };
        seq![(x, y)] + walk(nx, ny, err2, x1, y1, dx, dy, sx, sy, (fuel - 1) as nat)
    }
}

/// Bresenham's walk from (`x0`, `y0`) to (`x1`, `y1`).
pub open spec fn forward_path(x0: int, y0: int, x1: int, y1: int) -> Seq<(int, int)> {
    let dx = abs(x1 - x0);
    let dy = -abs(y1 - y0);
    walk(
        x0,
        y0,
        dx + dy,
        x1,
        y1,
        dx,
        dy,
        step_toward(x0, x1),
        step_toward(y0, y1),
        (abs(x1 - x0) + abs(y1 - y0)) as nat,
    )
}

pub open spec fn lex_le(x0: int, y0: int, x1: int, y1: int) -> bool {
    x0 < x1 || (x0 == x1 && y0 <= y1)
}

/// The cells of the line from (`x0`, `y0`) to (`x1`, `y1`), in order. The
/// walk always runs from the lexicographically smaller end, so that a line
/// and its reverse visit the same cells.
pub open spec fn line_path(x0: int, y0: int, x1: int, y1: int) -> Seq<(int, int)> {
    if lex_le(x0, y0, x1, y1) {
        forward_path(x0, y0, x1, y1)
    } else {
        forward_path(x1, y1, x0, y0).reverse()
    }
}

pub open spec fn cells_view(v: Seq<(i64, i64)>) -> Seq<(int, int)> {
    v.map_values(|p: (i64, i64)| (p.0 as int, p.1 as int))
}

/// Invariant of the walk: `i` horizontal and `j` vertical steps are taken.
pub open spec fn walk_inv(
    x0: int,
    y0: int,
    x1: int,
    y1: int,
    x: int,
    y: int,
    err: int,
    i: int,
    j: int,
) -> bool {
    let dxa = abs(x1 - x0);
    let dya = abs(y1 - y0);
    &&& 0 <= i <= dxa
    &&& 0 <= j <= dya
    &&& x == (if x0 < x1 { x0 + i } else { x0 - i })
    &&& y == (if y0 < y1 { y0 + j } else { y0 - j })
    &&& err == dxa * (j + 1) - dya * (i + 1)
}

proof fn lemma_step(x0: int, y0: int, x1: int, y1: int, x: int, y: int, err: int, i: int, j: int)
    requires
        walk_inv(x0, y0, x1, y1, x, y, err, i, j),
        !(x == x1 && y == y1),
    ensures
        ({
            let dx = abs(x1 - x0);
            let dy = -abs(y1 - y0);
            let sx = step_toward(x0, x1);
            let sy = step_toward(y0, y1);
            let e2 = 2 * err;
            let nx = if e2 >= dy { x + sx } else { x };
            let err1 = if e2 >= dy { err + dy } else { err };
            let ny = if e2 <= dx { y + sy } else { y };
            let err2 = if e2 <= dx { err1 + dx } else { err1 };
            let ni = if e2 >= dy { i + 1 } else { i };
            let nj = if e2 <= dx { j + 1 } else { j };
            &&& walk_inv(x0, y0, x1, y1, nx, ny, err2, ni, nj)
            &&& ni + nj > i + j
        }),
{
    let dxa = abs(x1 - x0);
    let dya = abs(y1 - y0);
    let sx = step_toward(x0, x1);
    let sy = step_toward(y0, y1);
    if i == dxa {
        assert(j < dya) by {
            if j == dya {
                assert(x == x1);
                assert(y == y1);
            }
        }
        lemma_mul_inequality(j + 1, dya, dxa);
        lemma_mul_is_distributive_add(dya, dxa, 1);
        lemma_mul_is_commutative(dxa, dya);
        lemma_mul_is_commutative(dxa, j + 1);
        assert(2 * err < -dya);
    }
    if j == dya {
        assert(i < dxa) by {
            if i == dxa {
                assert(x == x1);
                assert(y == y1);
            }
        }
        lemma_mul_inequality(i + 1, dxa, dya);
        lemma_mul_is_distributive_add(dxa, dya, 1);
        lemma_mul_is_commutative(dxa, dya);
        lemma_mul_is_commutative(dya, i + 1);
        assert(2 * err > dxa);
    }
    assert(dxa * (j + 2) == dxa * (j + 1) + dxa) by (nonlinear_arith);
    assert(dya * (i + 2) == dya * (i + 1) + dya) by (nonlinear_arith);
}

/// The walk started in a state of the invariant, with fuel enough for the
/// remaining steps, starts at that state and ends at (`x1`, `y1`).
proof fn lemma_walk_reaches(
    x0: int,
    y0: int,
    x1: int,
    y1: int,
    x: int,
    y: int,
    err: int,
    i: int,
    j: int,
    fuel: nat,
)
    requires
        walk_inv(x0, y0, x1, y1, x, y, err, i, j),
        fuel >= (abs(x1 - x0) - i) + (abs(y1 - y0) - j),
    ensures
        ({
            let w = walk(
                x,
                y,
                err,
                x1,
                y1,
                abs(x1 - x0),
                -abs(y1 - y0),
                step_toward(x0, x1),
                step_toward(y0, y1),
                fuel,
            );
            &&& w.len() >= 1
            &&& w[0] == (x, y)
            &&& w.last() == (x1, y1)
        }),
    decreases fuel,
{
    let dxa = abs(x1 - x0);
    let dya = abs(y1 - y0);
    if x == x1 && y == y1 {
    } else if fuel == 0 {
        assert(i == dxa && j == dya);
    } else {
        lemma_step(x0, y0, x1, y1, x, y, err, i, j);
        let dx = dxa;
        let dy = -dya;
        let sx = step_toward(x0, x1);
        let sy = step_toward(y0, y1);
        let e2 = 2 * err;
        let nx = if e2 >= dy { x + sx } else { x };
        let err1 = if e2 >= dy { err + dy } else { err };
        let ny = if e2 <= dx { y + sy } else { y };
        let err2 = if e2 <= dx { err1 + dx } else { err1 };
        let ni = if e2 >= dy { i + 1 } else { i };
        let nj = if e2 <= dx { j + 1 } else { j };
        lemma_walk_reaches(x0, y0, x1, y1, nx, ny, err2, ni, nj, (fuel - 1) as nat);
    }
}

/// Bresenham's walk starts at its first end and ends at its second.
pub proof fn lemma_forward_ends(x0: int, y0: int, x1: int, y1: int)
    ensures
        forward_path(x0, y0, x1, y1).len() >= 1,
        forward_path(x0, y0, x1, y1)[0] == (x0, y0),
        forward_path(x0, y0, x1, y1).last() == (x1, y1),
{
    let dxa = abs(x1 - x0);
    let dya = abs(y1 - y0);
    assert(dxa * (0 + 1) - dya * (0 + 1) == dxa + -dya) by (nonlinear_arith);
    lemma_walk_reaches(x0, y0, x1, y1, x0, y0, dxa + -dya, 0, 0, (dxa + dya) as nat);
}

/// Both ends of a line lie on it: the path starts at the first end and stops
/// at the second.
pub proof fn lemma_line_ends(x0: int, y0: int, x1: int, y1: int)
    ensures
        line_path(x0, y0, x1, y1).len() >= 1,
        line_path(x0, y0, x1, y1)[0] == (x0, y0),
        line_path(x0, y0, x1, y1).last() == (x1, y1),
        line_path(x0, y0, x1, y1).contains((x0, y0)),
        line_path(x0, y0, x1, y1).contains((x1, y1)),
{
    lemma_forward_ends(x0, y0, x1, y1);
    lemma_forward_ends(x1, y1, x0, y0);
    let p = line_path(x0, y0, x1, y1);
    assert(p[0] == (x0, y0));
    assert(p[p.len() - 1] == (x1, y1));
}

/// A line drawn from B to A visits the cells of the line from A to B, in
/// reverse order; so both visit the same set of cells.
pub proof fn lemma_line_symmetric(x0: int, y0: int, x1: int, y1: int)
    ensures
        line_path(x1, y1, x0, y0) == line_path(x0, y0, x1, y1).reverse(),
        forall|c: (int, int)|
            line_path(x0, y0, x1, y1).contains(c) <==> line_path(x1, y1, x0, y0).contains(c),
{
    let p = line_path(x0, y0, x1, y1);
    let q = line_path(x1, y1, x0, y0);
    if x0 == x1 && y0 == y1 {
        assert(forward_path(x0, y0, x1, y1) =~= seq![(x0, y0)]);
        assert(p.reverse() =~= p);
    } else if lex_le(x0, y0, x1, y1) {
        assert(q.reverse() =~= p);
        assert(p.reverse() =~= q);
    } else {
        assert(p.reverse() =~= q);
    }
    assert forall|c: (int, int)| p.contains(c) implies q.contains(c) by {
        let k = choose|k: int| 0 <= k < p.len() && p[k] == c;
        assert(q[p.len() - 1 - k] == c);
    }
    assert forall|c: (int, int)| q.contains(c) implies p.contains(c) by {
        let k = choose|k: int| 0 <= k < q.len() && q[k] == c;
        assert(p[q.len() - 1 - k] == c);
    }
}

/// Bound on the error term for coordinates within `COORD_LIMIT`.
proof fn lemma_err_bound(dxa: int, dya: int, i: int, j: int)
    requires
        0 <= dxa <= 2 * COORD_LIMIT,
        0 <= dya <= 2 * COORD_LIMIT,
        0 <= i <= dxa,
        0 <= j <= dya,
    ensures
        -4398048608256 <= dxa * (j + 1) - dya * (i + 1) <= 4398048608256,
{
    lemma_mul_upper_bound(dxa, 2097152, j + 1, 2097153);
    lemma_mul_upper_bound(dya, 2097152, i + 1, 2097153);
    assert(2097152 * 2097153 == 4398048608256);
    lemma_mul_nonnegative(dxa, j + 1);
    lemma_mul_nonnegative(dya, i + 1);
}

pub open spec fn coord_ok(v: i64) -> bool {
    -COORD_LIMIT <= v <= COORD_LIMIT
}

/// The cells of Bresenham's walk from (`x0`, `y0`) to (`x1`, `y1`).
pub fn forward_cells(x0: i64, y0: i64, x1: i64, y1: i64) -> (r: Vec<(i64, i64)>)
    requires
        coord_ok(x0),
        coord_ok(y0),
        coord_ok(x1),
        coord_ok(y1),
    ensures
        cells_view(r@) == forward_path(x0 as int, y0 as int, x1 as int, y1 as int),
{
    let dx: i64 = if x1 >= x0 { x1 - x0 } else { x0 - x1 };
    let dy: i64 = if y1 >= y0 { y0 - y1 } else { y1 - y0 };
    let sx: i64 = if x0 < x1 { 1 } else { -1 };
    let sy: i64 = if y0 < y1 { 1 } else { -1 };
    let mut err: i64 = dx + dy;
    let mut x: i64 = x0;
    let mut y: i64 = y0;
    let ghost dxa = dx as int;
    let ghost dya = -dy;
    let ghost mut i: int = 0;
    let ghost mut j: int = 0;
    let ghost mut fuel: nat = (dxa + dya) as nat;
    let mut path: Vec<(i64, i64)> = Vec::new();
    proof {
        assert(dxa * (0 + 1) - dya * (0 + 1) == dxa + -dya) by (nonlinear_arith);
    }
    while !(x == x1 && y == y1)
        invariant
            coord_ok(x0),
            coord_ok(y0),
            coord_ok(x1),
            coord_ok(y1),
            dxa == abs(x1 - x0),
            dya == abs(y1 - y0),
            dx == dxa,
            dy == -dya,
            sx == step_toward(x0 as int, x1 as int),
            sy == step_toward(y0 as int, y1 as int),
            walk_inv(x0 as int, y0 as int, x1 as int, y1 as int, x as int, y as int, err as int, i, j),
            fuel >= (dxa - i) + (dya - j),
            cells_view(path@) + walk(
                x as int,
                y as int,
                err as int,
                x1 as int,
                y1 as int,
                dx as int,
                dy as int,
                sx as int,
                sy as int,
                fuel,
            ) == forward_path(x0 as int, y0 as int, x1 as int, y1 as int),
        decreases (dxa - i) + (dya - j),
    {
        proof {
            lemma_step(x0 as int, y0 as int, x1 as int, y1 as int, x as int, y as int, err as int, i, j);
            lemma_err_bound(dxa, dya, i, j);
        }
        let ghost old_path = cells_view(path@);
        let ghost rest = walk(
            x as int,
            y as int,
            err as int,
            x1 as int,
            y1 as int,
            dx as int,
            dy as int,
            sx as int,
            sy as int,
            fuel,
        );
        path.push((x, y));
        let e2: i64 = 2 * err;
        if e2 >= dy {
            err = err + dy;
            x = x + sx;
            proof {
                i = i + 1;
            }
        }
        if e2 <= dx {
            err = err + dx;
            y = y + sy;
            proof {
                j = j + 1;
            }
        }
        proof {
            fuel = (fuel - 1) as nat;
            let tail = walk(
                x as int,
                y as int,
                err as int,
                x1 as int,
                y1 as int,
                dx as int,
                dy as int,
                sx as int,
                sy as int,
                fuel,
            );
            assert(cells_view(path@) =~= old_path.push((path@.last().0 as int, path@.last().1 as int)));
            assert(rest == seq![(path@.last().0 as int, path@.last().1 as int)] + tail);
            assert(cells_view(path@) + tail =~= old_path + rest);
        }
    }
    let ghost old_path = cells_view(path@);
    path.push((x, y));
    proof {
        assert(walk(
            x as int,
            y as int,
            err as int,
            x1 as int,
            y1 as int,
            dx as int,
            dy as int,
            sx as int,
            sy as int,
            fuel,
        ) == seq![(x as int, y as int)]);
        assert(cells_view(path@) =~= old_path + seq![(x as int, y as int)]);
    }
    path
}

/// The cells of the line from (`x0`, `y0`) to (`x1`, `y1`), in order.
pub fn line_cells(x0: i64, y0: i64, x1: i64, y1: i64) -> (r: Vec<(i64, i64)>)
    requires
        coord_ok(x0),
        coord_ok(y0),
        coord_ok(x1),
        coord_ok(y1),
    ensures
        cells_view(r@) == line_path(x0 as int, y0 as int, x1 as int, y1 as int),
{
    if x0 < x1 || (x0 == x1 && y0 <= y1) {
        forward_cells(x0, y0, x1, y1)
    } else {
        let f = forward_cells(x1, y1, x0, y0);
        let n = f.len();
        let mut r: Vec<(i64, i64)> = Vec::new();
        let mut k: usize = 0;
        while k < n
            invariant
                n == f@.len(),
                k <= n,
                r@.len() == k,
                forall|m: int| 0 <= m < k ==> #[trigger] r@[m] == f@[n - 1 - m],
            decreases n - k,
        {
            r.push(f[n - 1 - k]);
            k = k + 1;
        }
        proof {
            assert(cells_view(r@) =~= cells_view(f@).reverse());
        }
        r
    }
}

} // verus!
