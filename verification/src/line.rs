use vstd::prelude::*;
use vstd::arithmetic::div_mod::lemma_fundamental_div_mod_converse;

verus! {

/// The distance between two coordinates on one axis.
pub open spec fn span(from: int, to: int) -> int {
    if from < to {
        to - from
    } else {
        from - to
    }
}

/// The coordinate `k` unit steps away from `from` in the direction of `to`.
pub open spec fn toward(from: int, to: int, k: int) -> int {
    if from < to {
        from + k
    } else {
        from - k
    }
}

/// The number of steps from the first pixel of a segment to its last: the
/// longer of its two axis spans.
pub open spec fn line_steps(x0: int, y0: int, x1: int, y1: int) -> int {
    if span(x0, x1) >= span(y0, y1) {
        span(x0, x1)
    } else {
        span(y0, y1)
    }
}

/// How far a segment has moved along its shorter axis after `k` steps along
/// its longer one: `k * minor / major`, rounded to the nearest integer, a
/// half rounded up.
pub open spec fn minor_offset(k: int, major: int, minor: int) -> int {
    (2 * (k * minor) + major) / (2 * major)
}

/// The pixel of the segment from `(x0, y0)` to `(x1, y1)` that lies `k`
/// steps from its start.
pub open spec fn line_point(x0: int, y0: int, x1: int, y1: int, k: int) -> (int, int) {
    let dx = span(x0, x1);
    let dy = span(y0, y1);
    if dx == 0 && dy == 0 {
        (x0, y0)
    } else if dx >= dy {
        (toward(x0, x1, k), toward(y0, y1, minor_offset(k, dx, dy)))
    } else {
        (toward(x0, x1, minor_offset(k, dy, dx)), toward(y0, y1, k))
    }
}

/// Whether `(x, y)` is among the first `count` pixels of the segment.
pub open spec fn on_line_prefix(
    x0: int,
    y0: int,
    x1: int,
    y1: int,
    count: int,
    x: int,
    y: int,
) -> bool {
    exists|k: int| 0 <= k < count && #[trigger] line_point(x0, y0, x1, y1, k) == (x, y)
}

/// Whether `(x, y)` is a pixel of the discrete segment from `(x0, y0)` to
/// `(x1, y1)`, both ends included.
pub open spec fn on_line(x0: int, y0: int, x1: int, y1: int, x: int, y: int) -> bool {
    on_line_prefix(x0, y0, x1, y1, line_steps(x0, y0, x1, y1) + 1, x, y)
}

/// The rounded quotient is the one integer `j` with
/// `(2j - 1) * major <= 2 * k * minor < (2j + 1) * major`.
pub proof fn lemma_minor_offset(k: int, major: int, minor: int, j: int)
    requires
        major > 0,
        2 * (j * major) - major <= 2 * (k * minor) < 2 * (j * major) + major,
    ensures
        minor_offset(k, major, minor) == j,
{
    let n = 2 * (k * minor) + major;
    let r = n - 2 * (j * major);
    assert(j * (2 * major) == 2 * (j * major)) by (nonlinear_arith);
    lemma_fundamental_div_mod_converse(n, 2 * major, j, r);
}

/// A segment starts on its first end point and, after `line_steps` steps,
/// stands on its second.
pub proof fn lemma_line_end_points(x0: int, y0: int, x1: int, y1: int)
    ensures
        line_point(x0, y0, x1, y1, 0) == (x0, y0),
        line_point(x0, y0, x1, y1, line_steps(x0, y0, x1, y1)) == (x1, y1),
        on_line(x0, y0, x1, y1, x0, y0),
        on_line(x0, y0, x1, y1, x1, y1),
{
    let dx = span(x0, x1);
    let dy = span(y0, y1);
    let n = line_steps(x0, y0, x1, y1);
    if dx == 0 && dy == 0 {
    } else if dx >= dy {
        assert(0 * dy == 0 && 0 * dx == 0) by (nonlinear_arith);
        lemma_minor_offset(0, dx, dy, 0);
        assert(dy * dx == dx * dy) by (nonlinear_arith);
        lemma_minor_offset(dx, dx, dy, dy);
    } else {
        assert(0 * dx == 0 && 0 * dy == 0) by (nonlinear_arith);
        lemma_minor_offset(0, dy, dx, 0);
        assert(dx * dy == dy * dx) by (nonlinear_arith);
        lemma_minor_offset(dy, dy, dx, dx);
    }
    assert(line_point(x0, y0, x1, y1, 0) == (x0, y0));
    assert(line_point(x0, y0, x1, y1, n) == (x1, y1));
}

/// A segment with both ends on one point is that point alone.
pub proof fn lemma_single_point_line(x0: int, y0: int, x: int, y: int)
    ensures
        on_line(x0, y0, x0, y0, x, y) <==> (x == x0 && y == y0),
{
    assert(line_point(x0, y0, x0, y0, 0) == (x0, y0));
}

/// A horizontal segment is the run of cells between its ends on its row.
pub proof fn lemma_horizontal_line(x0: int, x1: int, y0: int, x: int, y: int)
    ensures
        on_line(x0, y0, x1, y0, x, y) <==> (y == y0 && if x0 < x1 {
            x0 <= x <= x1
        } else {
            x1 <= x <= x0
        }),
{
    let dx = span(x0, x1);
    let n = line_steps(x0, y0, x1, y0);
    assert(n == dx);
    assert forall|k: int| 0 <= k <= n implies #[trigger] line_point(x0, y0, x1, y0, k) == (
        toward(x0, x1, k),
        y0,
    ) by {
        if dx > 0 {
            assert(k * 0 == 0 && 0 * dx == 0) by (nonlinear_arith);
            lemma_minor_offset(k, dx, 0, 0);
        }
    }
    if y == y0 && (if x0 < x1 {
        x0 <= x <= x1
    } else {
        x1 <= x <= x0
    }) {
        let k = span(x0, x);
        assert(line_point(x0, y0, x1, y0, k) == (x, y));
    }
}

/// A vertical segment is the run of cells between its ends on its column.
pub proof fn lemma_vertical_line(x0: int, y0: int, y1: int, x: int, y: int)
    ensures
        on_line(x0, y0, x0, y1, x, y) <==> (x == x0 && if y0 < y1 {
            y0 <= y <= y1
        } else {
            y1 <= y <= y0
        }),
{
    let dy = span(y0, y1);
    let n = line_steps(x0, y0, x0, y1);
    assert(n == dy);
    assert forall|k: int| 0 <= k <= n implies #[trigger] line_point(x0, y0, x0, y1, k) == (
        x0,
        toward(y0, y1, k),
    ) by {
        if dy > 0 {
            assert(k * 0 == 0 && 0 * dy == 0) by (nonlinear_arith);
            lemma_minor_offset(k, dy, 0, 0);
        }
    }
    if x == x0 && (if y0 < y1 {
        y0 <= y <= y1
    } else {
        y1 <= y <= y0
    }) {
        let k = span(y0, y);
        assert(line_point(x0, y0, x0, y1, k) == (x, y));
    }
}

} // verus!
