use vstd::prelude::*;

verus! {

/// The absolute value of an integer.
pub open spec fn magnitude(a: int) -> int {
    if a < 0 {
        -a
    } else {
        a
    }
}

/// How far the cell at offset `(x, y)` from the centre lies off the circle
/// of radius `r`, in squared distance.
pub open spec fn radius_error(r: int, x: int, y: int) -> int {
    x * x + y * y - r * r
}

/// The height of the outline above the centre in column `x` of the octant
/// that starts straight above the centre. The outline starts at height `r`;
/// from one column to the next it keeps its height or drops by one cell,
/// whichever of the two cells has the smaller sum of radius errors: it drops
/// where the errors of the cell beside and the cell diagonally below add up
/// to zero or more.
pub open spec fn circle_y(r: int, x: int) -> int
    decreases x,
{
    if x <= 0 {
        r
    } else {
        let y = circle_y(r, x - 1);
        if radius_error(r, x, y) + radius_error(r, x, y - 1) < 0 {
            y
        } else {
            y - 1
        }
    }
}

/// Whether the offset `(u, v)` is one of the eight mirror images of the
/// octant cell `(a, b)`.
pub open spec fn mirrors(a: int, b: int, u: int, v: int) -> bool {
    (magnitude(u) == a && magnitude(v) == b) || (magnitude(u) == b && magnitude(v) == a)
}

/// Whether the offset `(u, v)` from the centre mirrors an outline cell of
/// one of the first `count` columns of the octant.
pub open spec fn on_circle_prefix(r: int, count: int, u: int, v: int) -> bool {
    exists|x: int|
        0 <= x < count && x <= #[trigger] circle_y(r, x) && mirrors(x, circle_y(r, x), u, v)
}

/// Whether the offset `(u, v)` from the centre belongs to the outline of
/// radius `r`: the octant runs for as long as its column does not exceed its
/// height, and the outline is its eight mirror images.
pub open spec fn on_circle_offset(r: int, u: int, v: int) -> bool {
    exists|x: int| 0 <= x && x <= #[trigger] circle_y(r, x) && mirrors(x, circle_y(r, x), u, v)
}

/// Whether the cell `(x, y)` belongs to the outline of radius `r` round
/// `(cx, cy)`.
pub open spec fn on_circle(cx: int, cy: int, r: int, x: int, y: int) -> bool {
    on_circle_offset(r, x - cx, y - cy)
}

/// The outline never rises from one column to a later one, and drops by at
/// most one cell per column.
pub proof fn lemma_circle_y_monotone(r: int, a: int, b: int)
    requires
        0 <= a <= b,
    ensures
        circle_y(r, a) - (b - a) <= circle_y(r, b) <= circle_y(r, a),
    decreases b - a,
{
    if a < b {
        lemma_circle_y_monotone(r, a, b - 1);
    }
}

/// Once the column has passed the height, it stays past it: the octant is
/// an initial run of columns.
pub proof fn lemma_octant_is_prefix(r: int, count: int, u: int, v: int)
    requires
        0 <= count,
        count > circle_y(r, count),
    ensures
        on_circle_offset(r, u, v) <==> on_circle_prefix(r, count, u, v),
{
    if on_circle_offset(r, u, v) {
        let x = choose|x: int|
            0 <= x && x <= #[trigger] circle_y(r, x) && mirrors(x, circle_y(r, x), u, v);
        if x >= count {
            lemma_circle_y_monotone(r, count, x);
        }
        assert(0 <= x < count);
    }
    if on_circle_prefix(r, count, u, v) {
        let x = choose|x: int|
            0 <= x < count && x <= #[trigger] circle_y(r, x) && mirrors(x, circle_y(r, x), u, v);
        assert(0 <= x && x <= circle_y(r, x));
    }
}

/// Every outline cell of the octant misses the true circle by no more than
/// its own height, in squared distance.
pub proof fn lemma_octant_radius_error(r: int, x: int)
    requires
        0 <= r,
        0 <= x <= circle_y(r, x),
    ensures
        -circle_y(r, x) <= radius_error(r, x, circle_y(r, x)) <= circle_y(r, x),
        circle_y(r, x) <= r,
    decreases x,
{
    if x == 0 {
        assert(radius_error(r, 0, r) == 0) by (nonlinear_arith);
    } else {
        let y0 = circle_y(r, x - 1);
        let y1 = circle_y(r, x);
        lemma_octant_radius_error(r, x - 1);
        let e0 = radius_error(r, x - 1, y0);
        assert(radius_error(r, x, y0) == e0 + 2 * x - 1) by (nonlinear_arith)
            requires
                e0 == radius_error(r, x - 1, y0),
        ;
        assert(radius_error(r, x, y0 - 1) == e0 + 2 * x - 2 * y0) by (nonlinear_arith)
            requires
                e0 == radius_error(r, x - 1, y0),
        ;
    }
}

/// Every cell of an outline of radius one or more lies strictly between the
/// circles of radius `r - 1` and `r + 1`.
pub proof fn lemma_circle_within_ring(r: int, u: int, v: int)
    requires
        1 <= r,
        on_circle_offset(r, u, v),
    ensures
        (r - 1) * (r - 1) < u * u + v * v < (r + 1) * (r + 1),
{
    let x = choose|x: int|
        0 <= x && x <= #[trigger] circle_y(r, x) && mirrors(x, circle_y(r, x), u, v);
    let y = circle_y(r, x);
    lemma_octant_radius_error(r, x);
    assert(u * u + v * v == x * x + y * y) by (nonlinear_arith)
        requires
            mirrors(x, y, u, v),
    ;
    assert((r - 1) * (r - 1) < x * x + y * y < (r + 1) * (r + 1)) by (nonlinear_arith)
        requires
            -y <= x * x + y * y - r * r <= y,
            0 <= y <= r,
            1 <= r,
    ;
}

/// An outline of radius zero is the centre cell alone.
pub proof fn lemma_circle_radius_zero(u: int, v: int)
    ensures
        on_circle_offset(0, u, v) <==> (u == 0 && v == 0),
{
    if on_circle_offset(0, u, v) {
        let x = choose|x: int|
            0 <= x && x <= #[trigger] circle_y(0, x) && mirrors(x, circle_y(0, x), u, v);
        lemma_circle_y_monotone(0, 0, x);
    }
    if u == 0 && v == 0 {
        assert(0 <= circle_y(0, 0) && mirrors(0, circle_y(0, 0), u, v));
    }
}

} // verus!
