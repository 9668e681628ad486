use vstd::prelude::*;
use crate::circle::{
    circle_y, lemma_octant_is_prefix, lemma_octant_radius_error, mirrors, on_circle,
    on_circle_prefix, radius_error,
};
use crate::led_color::LedColor;
use crate::led_font::{Glyph, LedFont};
use crate::line::{
    lemma_line_end_points, lemma_minor_offset, line_point, line_steps, on_line, on_line_prefix,
    span, toward,
};
use crate::pixel_grid::{
    in_bounds, lemma_painted_gives_paint, lemma_painted_same_cells, lemma_painted_step, paint,
    painted, plot, well_formed, PixelGrid,
};
use crate::text::{
    cursor_at, glyph_covers, glyph_covers_prefix, lemma_wrap_range, spacing, text_covers,
    text_covers_prefix, wrap,
};

verus! {

/// A bounds-checked write at a coordinate that may lie outside the range
/// of the signed 32-bit coordinates, where no canvas has a cell.
pub(crate) fn set_wide<C: PixelGrid>(canvas: &mut C, x: i64, y: i64, color: &LedColor)
    ensures
        well_formed(*final(canvas)),
        final(canvas).width() == old(canvas).width(),
        final(canvas).height() == old(canvas).height(),
        final(canvas).cells() == plot(
            old(canvas).cells(),
            old(canvas).width(),
            old(canvas).height(),
            x as int,
            y as int,
            color.packed(),
        ),
{
    // Asking for the extent tells that the grid is valid.
    let _ = canvas.canvas_size();
    if x < -0x8000_0000 || x > 0x7fff_ffff || y < -0x8000_0000 || y > 0x7fff_ffff {
        return ;
    }
    canvas.set(x as i32, y as i32, color);
}

/// Writes the eight mirror images of the octant cell `(a, b)` round
/// `(cx, cy)`.
pub(crate) fn plot_mirrors<C: PixelGrid>(
    canvas: &mut C,
    cx: i32,
    cy: i32,
    a: i64,
    b: i64,
    color: &LedColor,
    Ghost(before): Ghost<Seq<u32>>,
    Ghost(touched): Ghost<spec_fn(int, int) -> bool>,
)
    requires
        0 <= a <= u32::MAX,
        0 <= b <= u32::MAX,
        before.len() == old(canvas).width() * old(canvas).height(),
        painted(
            before,
            old(canvas).cells(),
            old(canvas).width(),
            old(canvas).height(),
            color.packed(),
            touched,
        ),
    ensures
        well_formed(*final(canvas)),
        final(canvas).width() == old(canvas).width(),
        final(canvas).height() == old(canvas).height(),
        painted(
            before,
            final(canvas).cells(),
            old(canvas).width(),
            old(canvas).height(),
            color.packed(),
            |px: int, py: int| touched(px, py) || mirrors(a as int, b as int, px - cx, py - cy),
        ),
{
    let ghost w = canvas.width();
    let ghost h = canvas.height();
    let ghost value = color.packed();
    let x: i64 = cx as i64;
    let y: i64 = cy as i64;
    let ghost t1 = |px: int, py: int| touched(px, py) || (px == x + a && py == y + b);
    let ghost t2 = |px: int, py: int| t1(px, py) || (px == x + a && py == y - b);
    let ghost t3 = |px: int, py: int| t2(px, py) || (px == x - a && py == y + b);
    let ghost t4 = |px: int, py: int| t3(px, py) || (px == x - a && py == y - b);
    let ghost t5 = |px: int, py: int| t4(px, py) || (px == x + b && py == y + a);
    let ghost t6 = |px: int, py: int| t5(px, py) || (px == x + b && py == y - a);
    let ghost t7 = |px: int, py: int| t6(px, py) || (px == x - b && py == y + a);
    let ghost t8 = |px: int, py: int| t7(px, py) || (px == x - b && py == y - a);
    let ghost c0 = canvas.cells();
    set_wide(canvas, x + a, y + b, color);
    proof {
        lemma_painted_step(before, c0, w, h, value, x + a, y + b, touched, t1);
    }
    let ghost c1 = canvas.cells();
    set_wide(canvas, x + a, y - b, color);
    proof {
        lemma_painted_step(before, c1, w, h, value, x + a, y - b, t1, t2);
    }
    let ghost c2 = canvas.cells();
    set_wide(canvas, x - a, y + b, color);
    proof {
        lemma_painted_step(before, c2, w, h, value, x - a, y + b, t2, t3);
    }
    let ghost c3 = canvas.cells();
    set_wide(canvas, x - a, y - b, color);
    proof {
        lemma_painted_step(before, c3, w, h, value, x - a, y - b, t3, t4);
    }
    let ghost c4 = canvas.cells();
    set_wide(canvas, x + b, y + a, color);
    proof {
        lemma_painted_step(before, c4, w, h, value, x + b, y + a, t4, t5);
    }
    let ghost c5 = canvas.cells();
    set_wide(canvas, x + b, y - a, color);
    proof {
        lemma_painted_step(before, c5, w, h, value, x + b, y - a, t5, t6);
    }
    let ghost c6 = canvas.cells();
    set_wide(canvas, x - b, y + a, color);
    proof {
        lemma_painted_step(before, c6, w, h, value, x - b, y + a, t6, t7);
    }
    let ghost c7 = canvas.cells();
    set_wide(canvas, x - b, y - a, color);
    proof {
        lemma_painted_step(before, c7, w, h, value, x - b, y - a, t7, t8);
        lemma_painted_same_cells(
            before,
            canvas.cells(),
            w,
            h,
            value,
            t8,
            |px: int, py: int| touched(px, py) || mirrors(a as int, b as int, px - cx, py - cy),
        );
    }
}

/// Writes the lit cells of `glyph`, drawn at the cursor, each wrapped
/// to the canvas extent.
pub(crate) fn blit_glyph<C: PixelGrid>(
    canvas: &mut C,
    glyph: &Glyph,
    cursor_x: i64,
    cursor_y: i64,
    color: &LedColor,
    Ghost(before): Ghost<Seq<u32>>,
    Ghost(touched): Ghost<spec_fn(int, int) -> bool>,
)
    requires
        old(canvas).width() > 0,
        old(canvas).height() > 0,
        i32::MIN <= cursor_x <= i32::MAX,
        i32::MIN <= cursor_y <= i32::MAX,
        before.len() == old(canvas).width() * old(canvas).height(),
        painted(
            before,
            old(canvas).cells(),
            old(canvas).width(),
            old(canvas).height(),
            color.packed(),
            touched,
        ),
    ensures
        well_formed(*final(canvas)),
        final(canvas).width() == old(canvas).width(),
        final(canvas).height() == old(canvas).height(),
        painted(
            before,
            final(canvas).cells(),
            old(canvas).width(),
            old(canvas).height(),
            color.packed(),
            |px: int, py: int|
                touched(px, py) || glyph_covers(
                    *glyph,
                    (cursor_x as int, cursor_y as int),
                    old(canvas).width(),
                    old(canvas).height(),
                    px,
                    py,
                ),
        ),
{
    let size = canvas.canvas_size();
    let width: i64 = size.0 as i64;
    let height: i64 = size.1 as i64;
    let ghost cursor = (cursor_x as int, cursor_y as int);
    let count: usize = glyph.pixels.len();
    let mut k: usize = 0;
    proof {
        lemma_painted_same_cells(
            before,
            canvas.cells(),
            width as int,
            height as int,
            color.packed(),
            touched,
            |px: int, py: int|
                touched(px, py) || glyph_covers_prefix(
                    *glyph,
                    0,
                    cursor,
                    width as int,
                    height as int,
                    px,
                    py,
                ),
        );
    }
    while k < count
        invariant
            well_formed(*canvas),
            canvas.width() == old(canvas).width(),
            canvas.height() == old(canvas).height(),
            width == canvas.width(),
            height == canvas.height(),
            width > 0,
            height > 0,
            before.len() == width * height,
            cursor == (cursor_x as int, cursor_y as int),
            i32::MIN <= cursor_x <= i32::MAX,
            i32::MIN <= cursor_y <= i32::MAX,
            count == glyph.pixels@.len(),
            k <= count,
            painted(
                before,
                canvas.cells(),
                width as int,
                height as int,
                color.packed(),
                |px: int, py: int|
                    touched(px, py) || glyph_covers_prefix(
                        *glyph,
                        k as int,
                        cursor,
                        width as int,
                        height as int,
                        px,
                        py,
                    ),
            ),
        decreases count - k,
    {
        let pixel = &glyph.pixels[k];
        let ghost drawn = |px: int, py: int|
            touched(px, py) || glyph_covers_prefix(
                *glyph,
                k as int,
                cursor,
                width as int,
                height as int,
                px,
                py,
            );
        let ghost next = |px: int, py: int|
            touched(px, py) || glyph_covers_prefix(
                *glyph,
                k + 1,
                cursor,
                width as int,
                height as int,
                px,
                py,
            );
        let ghost mid = canvas.cells();
        if pixel.is_set {
            let x: i64 = (pixel.x as i64 + cursor_x) % width;
            let y: i64 = (pixel.y as i64 + cursor_y) % height;
            proof {
                lemma_wrap_range(pixel.x + cursor_x, width as int);
                lemma_wrap_range(pixel.y + cursor_y, height as int);
            }
            canvas.set(x as i32, y as i32, color);
            proof {
                assert forall|px: int, py: int| #[trigger]
                    next(px, py) <==> (drawn(px, py) || (px == x && py == y)) by {
                    if glyph_covers_prefix(
                        *glyph,
                        k as int,
                        cursor,
                        width as int,
                        height as int,
                        px,
                        py,
                    ) {
                        let m = choose|m: int|
                            0 <= m < k && m < glyph.pixels@.len() && (
                            #[trigger] glyph.pixels@[m]).is_set && wrap(
                                glyph.pixels@[m].x + cursor.0,
                                width as int,
                            ) == px && wrap(glyph.pixels@[m].y + cursor.1, height as int)
                                == py;
                        assert(0 <= m < k + 1);
                    }
                    if px == x && py == y {
                        assert(glyph.pixels@[k as int].is_set);
                    }
                }
                lemma_painted_step(
                    before,
                    mid,
                    width as int,
                    height as int,
                    color.packed(),
                    x as int,
                    y as int,
                    drawn,
                    next,
                );
            }
        } else {
            proof {
                assert forall|px: int, py: int| #[trigger] next(px, py) <==> drawn(px, py) by {
                    if glyph_covers_prefix(
                        *glyph,
                        k as int,
                        cursor,
                        width as int,
                        height as int,
                        px,
                        py,
                    ) {
                        let m = choose|m: int|
                            0 <= m < k && m < glyph.pixels@.len() && (
                            #[trigger] glyph.pixels@[m]).is_set && wrap(
                                glyph.pixels@[m].x + cursor.0,
                                width as int,
                            ) == px && wrap(glyph.pixels@[m].y + cursor.1, height as int)
                                == py;
                        assert(0 <= m < k + 1);
                    }
                }
                lemma_painted_same_cells(
                    before,
                    mid,
                    width as int,
                    height as int,
                    color.packed(),
                    drawn,
                    next,
                );
            }
        }
        k = k + 1;
    }
}

/// Walks the segment from `(x0, y0)` to `(x1, y1)` with an integer error
/// term, one pixel per step along the longer axis.
pub(crate) fn rasterise_line<C: PixelGrid>(
    canvas: &mut C,
    x0: i32,
    y0: i32,
    x1: i32,
    y1: i32,
    color: &LedColor,
)
    ensures
        well_formed(*final(canvas)),
        final(canvas).width() == old(canvas).width(),
        final(canvas).height() == old(canvas).height(),
        final(canvas).cells() == paint(
            old(canvas).cells(),
            old(canvas).width(),
            color.packed(),
            |x: int, y: int| on_line(x0 as int, y0 as int, x1 as int, y1 as int, x, y),
        ),
{
    // Asking for the extent tells that the grid is valid.
    let _ = canvas.canvas_size();
    let dx: i64 = if x0 < x1 {
        x1 as i64 - x0 as i64
    } else {
        x0 as i64 - x1 as i64
    };
    let sx: i32 = if x0 < x1 {
        1
    } else {
        -1
    };
    let dy: i64 = if y0 < y1 {
        y0 as i64 - y1 as i64
    } else {
        y1 as i64 - y0 as i64
    };
    let sy: i32 = if y0 < y1 {
        1
    } else {
        -1
    };
    let mut x: i32 = x0;
    let mut y: i32 = y0;
    let mut err: i64 = dx + dy;
    let ghost ady: int = -dy;
    let ghost steps: int = line_steps(x0 as int, y0 as int, x1 as int, y1 as int);
    // Steps taken along each axis, their products with the other axis'
    // span, and the number of pixels drawn.
    let ghost mut i: int = 0;
    let ghost mut j: int = 0;
    let ghost mut p: int = 0;
    let ghost mut q: int = 0;
    let ghost mut k: int = 0;
    proof {
        assert(0 * ady == 0 && 0 * dx == 0) by (nonlinear_arith);
        lemma_line_end_points(x0 as int, y0 as int, x1 as int, y1 as int);
        assert forall|px: int, py: int|
            in_bounds(canvas.width(), canvas.height(), px, py) implies !on_line_prefix(
            x0 as int,
            y0 as int,
            x1 as int,
            y1 as int,
            0,
            px,
            py,
        ) by {}
    }
    loop
        invariant_except_break
            dx == span(x0 as int, x1 as int),
            ady == span(y0 as int, y1 as int),
            dy == -ady,
            sx == (if x0 < x1 { 1int } else { -1int }),
            sy == (if y0 < y1 { 1int } else { -1int }),
            steps == line_steps(x0 as int, y0 as int, x1 as int, y1 as int),
            0 <= i <= dx,
            0 <= j <= ady,
            0 <= k <= steps,
            x == toward(x0 as int, x1 as int, i),
            y == toward(y0 as int, y1 as int, j),
            p == i * ady,
            q == j * dx,
            err == q + dx - p - ady,
            dx >= ady ==> k == i && 2 * q - dx <= 2 * p && (dx > 0 ==> 2 * p < 2 * q + dx),
            dx < ady ==> k == j && 2 * p - ady <= 2 * q < 2 * p + ady,
            line_point(x0 as int, y0 as int, x1 as int, y1 as int, k) == (x as int, y as int),
            line_point(x0 as int, y0 as int, x1 as int, y1 as int, steps) == (
                x1 as int,
                y1 as int,
            ),
            painted(
                old(canvas).cells(),
                canvas.cells(),
                canvas.width(),
                canvas.height(),
                color.packed(),
                |px: int, py: int|
                    on_line_prefix(x0 as int, y0 as int, x1 as int, y1 as int, k, px, py),
            ),
        invariant
            well_formed(*canvas),
            canvas.width() == old(canvas).width(),
            canvas.height() == old(canvas).height(),
            well_formed(*old(canvas)),
        ensures
            painted(
                old(canvas).cells(),
                canvas.cells(),
                canvas.width(),
                canvas.height(),
                color.packed(),
                |px: int, py: int| on_line(x0 as int, y0 as int, x1 as int, y1 as int, px, py),
            ),
        decreases steps - k,
    {
        let ghost mid = canvas.cells();
        canvas.set(x, y, color);
        proof {
            let before_step = |px: int, py: int|
                on_line_prefix(x0 as int, y0 as int, x1 as int, y1 as int, k, px, py);
            let after_step = |px: int, py: int|
                on_line_prefix(x0 as int, y0 as int, x1 as int, y1 as int, k + 1, px, py);
            assert forall|px: int, py: int| #[trigger]
                after_step(px, py) <==> (before_step(px, py) || (px == x && py == y)) by {
                if before_step(px, py) {
                    let m = choose|m: int|
                        0 <= m < k && #[trigger] line_point(
                            x0 as int,
                            y0 as int,
                            x1 as int,
                            y1 as int,
                            m,
                        ) == (px, py);
                    assert(0 <= m < k + 1);
                }
            }
            lemma_painted_step(
                old(canvas).cells(),
                mid,
                canvas.width(),
                canvas.height(),
                color.packed(),
                x as int,
                y as int,
                before_step,
                after_step,
            );
        }
        if x == x1 && y == y1 {
            proof {
                assert(i == dx && j == ady);
                assert(k == steps);
            }
            break ;
        }
        assert(k < steps);
        let e2: i64 = 2 * err;
        let ghost p0 = p;
        let ghost q0 = q;
        let ghost i0 = i;
        let ghost j0 = j;
        if e2 >= dy {
            proof {
                if dx >= ady {
                    assert(i < dx);
                } else {
                    // (2i + 1) * ady <= 2 * (j + 1) * dx <= 2 * ady * dx
                    assert(i < dx) by (nonlinear_arith)
                        requires
                            p == i * ady,
                            q == j * dx,
                            2 * p + ady <= 2 * q + 2 * dx,
                            0 <= j < ady,
                            0 <= i,
                            0 <= dx < ady,
                    ;
                }
                assert((i + 1) * ady == i * ady + ady) by (nonlinear_arith);
                i = i + 1;
                p = p + ady;
            }
            err = err + dy;
            x = x + sx;
        }
        if e2 <= dx {
            proof {
                if dx >= ady {
                    // (2j + 1) * dx <= 2 * (i + 1) * ady <= 2 * dx * ady
                    assert(j < ady) by (nonlinear_arith)
                        requires
                            p0 == i0 * ady,
                            q0 == j * dx,
                            2 * q0 + dx <= 2 * p0 + 2 * ady,
                            0 <= i0 < dx,
                            0 <= j,
                            0 <= ady <= dx,
                    ;
                } else {
                    assert(j < ady);
                }
                assert((j + 1) * dx == j * dx + dx) by (nonlinear_arith);
                j = j + 1;
                q = q + dx;
            }
            err = err + dx;
            y = y + sy;
        }
        proof {
            k = k + 1;
            if dx >= ady {
                assert(k == i);
                lemma_minor_offset(k, dx as int, ady, j);
            } else {
                assert(k == j);
                lemma_minor_offset(k, ady, dx as int, i);
            }
        }
    }
    proof {
        lemma_painted_gives_paint(
            old(canvas).cells(),
            canvas.cells(),
            canvas.width(),
            canvas.height(),
            color.packed(),
            |px: int, py: int| on_line(x0 as int, y0 as int, x1 as int, y1 as int, px, py),
        );
    }
}

/// Walks one octant of the outline with an integer decision value and
/// mirrors each of its cells eight ways.
pub(crate) fn rasterise_circle<C: PixelGrid>(
    canvas: &mut C,
    x: i32,
    y: i32,
    radius: u32,
    color: &LedColor,
)
    ensures
        well_formed(*final(canvas)),
        final(canvas).width() == old(canvas).width(),
        final(canvas).height() == old(canvas).height(),
        final(canvas).cells() == paint(
            old(canvas).cells(),
            old(canvas).width(),
            color.packed(),
            |px: int, py: int| on_circle(x as int, y as int, radius as int, px, py),
        ),
{
    // Asking for the extent tells that the grid is valid.
    let _ = canvas.canvas_size();
    let r: i64 = radius as i64;
    let mut x0: i64 = 0;
    let mut y0: i64 = r;
    let mut d: i64 = 3 - 2 * r;
    proof {
        assert(radius_error(r as int, 1, r as int) + radius_error(r as int, 1, r as int - 1)
            == 3 - 2 * r) by (nonlinear_arith);
    }
    while x0 <= y0
        invariant
            well_formed(*canvas),
            well_formed(*old(canvas)),
            canvas.width() == old(canvas).width(),
            canvas.height() == old(canvas).height(),
            r == radius,
            0 <= x0 <= r + 1,
            y0 == circle_y(r as int, x0 as int),
            -1 <= y0 <= r,
            d == radius_error(r as int, x0 + 1, y0 as int) + radius_error(
                r as int,
                x0 + 1,
                y0 - 1,
            ),
            painted(
                old(canvas).cells(),
                canvas.cells(),
                canvas.width(),
                canvas.height(),
                color.packed(),
                |px: int, py: int| on_circle_prefix(r as int, x0 as int, px - x, py - y),
            ),
        decreases r + 1 - x0,
    {
        let ghost drawn = |px: int, py: int| on_circle_prefix(r as int, x0 as int, px - x, py - y);
        plot_mirrors(canvas, x, y, x0, y0, color, Ghost(old(canvas).cells()), Ghost(drawn));
        proof {
            lemma_octant_radius_error(r as int, x0 as int);
            let next = |px: int, py: int|
                on_circle_prefix(r as int, x0 + 1, px - x, py - y);
            assert forall|px: int, py: int| #[trigger]
                next(px, py) <==> (drawn(px, py) || mirrors(
                    x0 as int,
                    y0 as int,
                    px - x,
                    py - y,
                )) by {
                if drawn(px, py) {
                    let c = choose|c: int|
                        0 <= c < x0 && c <= #[trigger] circle_y(r as int, c) && mirrors(
                            c,
                            circle_y(r as int, c),
                            px - x,
                            py - y,
                        );
                    assert(0 <= c < x0 + 1);
                }
                if mirrors(x0 as int, y0 as int, px - x, py - y) {
                    assert(x0 <= circle_y(r as int, x0 as int));
                }
            }
            lemma_painted_same_cells(
                old(canvas).cells(),
                canvas.cells(),
                canvas.width(),
                canvas.height(),
                color.packed(),
                |px: int, py: int|
                    drawn(px, py) || mirrors(x0 as int, y0 as int, px - x, py - y),
                next,
            );
            let e = radius_error(r as int, x0 as int, y0 as int);
            assert(radius_error(r as int, x0 + 1, y0 as int) == e + 2 * x0 + 1
                && radius_error(r as int, x0 + 1, y0 - 1) == e + 2 * x0 - 2 * y0 + 2
                && radius_error(r as int, x0 + 2, y0 as int) == e + 4 * x0 + 4
                && radius_error(r as int, x0 + 2, y0 - 1) == e + 4 * x0 - 2 * y0 + 5
                && radius_error(r as int, x0 + 2, y0 - 2) == e + 4 * x0 - 4 * y0 + 8)
                by (nonlinear_arith)
                requires
                    e == radius_error(r as int, x0 as int, y0 as int),
            ;
        }
        if d < 0 {
            d = d + (4 * x0 + 6);
        } else {
            d = d + (4 * (x0 - y0) + 10);
            y0 = y0 - 1;
        }
        x0 = x0 + 1;
    }
    proof {
        assert forall|px: int, py: int|
            in_bounds(canvas.width(), canvas.height(), px, py) implies (#[trigger] on_circle(
            x as int,
            y as int,
            radius as int,
            px,
            py,
        ) <==> on_circle_prefix(r as int, x0 as int, px - x, py - y)) by {
            lemma_octant_is_prefix(r as int, x0 as int, px - x, py - y);
        }
        lemma_painted_same_cells(
            old(canvas).cells(),
            canvas.cells(),
            canvas.width(),
            canvas.height(),
            color.packed(),
            |px: int, py: int| on_circle_prefix(r as int, x0 as int, px - x, py - y),
            |px: int, py: int| on_circle(x as int, y as int, radius as int, px, py),
        );
        lemma_painted_gives_paint(
            old(canvas).cells(),
            canvas.cells(),
            canvas.width(),
            canvas.height(),
            color.packed(),
            |px: int, py: int| on_circle(x as int, y as int, radius as int, px, py),
        );
    }
}

/// Draws one glyph with its first cell at `(x, y)`.
pub(crate) fn rasterise_glyph<C: PixelGrid>(
    canvas: &mut C,
    glyph: &Glyph,
    x: i32,
    y: i32,
    color: &LedColor,
)
    requires
        old(canvas).width() > 0,
        old(canvas).height() > 0,
    ensures
        well_formed(*final(canvas)),
        final(canvas).width() == old(canvas).width(),
        final(canvas).height() == old(canvas).height(),
        final(canvas).cells() == paint(
            old(canvas).cells(),
            old(canvas).width(),
            color.packed(),
            |px: int, py: int|
                glyph_covers(
                    *glyph,
                    (x as int, y as int),
                    old(canvas).width(),
                    old(canvas).height(),
                    px,
                    py,
                ),
        ),
{
    // Asking for the extent tells that the grid is valid.
    let _ = canvas.canvas_size();
    let ghost nothing = |px: int, py: int| false;
    blit_glyph(
        canvas,
        glyph,
        x as i64,
        y as i64,
        color,
        Ghost(old(canvas).cells()),
        Ghost(nothing),
    );
    proof {
        lemma_painted_same_cells(
            old(canvas).cells(),
            canvas.cells(),
            canvas.width(),
            canvas.height(),
            color.packed(),
            |px: int, py: int|
                nothing(px, py) || glyph_covers(
                    *glyph,
                    (x as int, y as int),
                    canvas.width(),
                    canvas.height(),
                    px,
                    py,
                ),
            |px: int, py: int|
                glyph_covers(
                    *glyph,
                    (x as int, y as int),
                    canvas.width(),
                    canvas.height(),
                    px,
                    py,
                ),
        );
        lemma_painted_gives_paint(
            old(canvas).cells(),
            canvas.cells(),
            canvas.width(),
            canvas.height(),
            color.packed(),
            |px: int, py: int|
                glyph_covers(
                    *glyph,
                    (x as int, y as int),
                    canvas.width(),
                    canvas.height(),
                    px,
                    py,
                ),
        );
    }
}

/// Draws the glyphs of `text` one after the other, moving the cursor
/// after each.
pub(crate) fn rasterise_text<C: PixelGrid>(
    canvas: &mut C,
    font: &LedFont,
    text: &str,
    x: i32,
    y: i32,
    color: &LedColor,
    kerning_offset: i32,
    vertical: bool,
)
    requires
        font.covers(text@),
        text@.len() > 0 ==> old(canvas).width() > 0 && old(canvas).height() > 0,
    ensures
        well_formed(*final(canvas)),
        final(canvas).width() == old(canvas).width(),
        final(canvas).height() == old(canvas).height(),
        final(canvas).cells() == paint(
            old(canvas).cells(),
            old(canvas).width(),
            color.packed(),
            |px: int, py: int|
                text_covers(
                    font.text_glyphs(text@),
                    (x as int, y as int),
                    kerning_offset as int,
                    vertical,
                    old(canvas).width(),
                    old(canvas).height(),
                    px,
                    py,
                ),
        ),
{
    let size = canvas.canvas_size();
    let kerning: i64 = if kerning_offset < 0 {
        0
    } else {
        kerning_offset as i64
    };
    let width: i64 = size.0 as i64;
    let height: i64 = size.1 as i64;
    let mut start_x: i64 = x as i64;
    let mut start_y: i64 = y as i64;
    let ghost glyphs = font.text_glyphs(text@);
    let ghost start = (x as int, y as int);
    for c in it: text.chars()
        invariant
            it.seq() == text@,
            font.covers(text@),
            glyphs == font.text_glyphs(text@),
            well_formed(*canvas),
            well_formed(*old(canvas)),
            canvas.width() == old(canvas).width(),
            canvas.height() == old(canvas).height(),
            width == canvas.width(),
            height == canvas.height(),
            text@.len() > 0 ==> width > 0 && height > 0,
            kerning == spacing(kerning_offset as int),
            start == (x as int, y as int),
            i32::MIN <= start_x <= i32::MAX,
            i32::MIN <= start_y <= i32::MAX,
            (start_x as int, start_y as int) == cursor_at(
                glyphs,
                it.index() as int,
                start,
                kerning_offset as int,
                vertical,
                width as int,
                height as int,
            ),
            painted(
                old(canvas).cells(),
                canvas.cells(),
                width as int,
                height as int,
                color.packed(),
                |px: int, py: int|
                    text_covers_prefix(
                        glyphs,
                        it.index() as int,
                        start,
                        kerning_offset as int,
                        vertical,
                        width as int,
                        height as int,
                        px,
                        py,
                    ),
            ),
    {
        let ghost i = it.index() as int;
        let ghost cursor = (start_x as int, start_y as int);
        assert(font.glyph_for(text@[i]) is Some);
        let glyph = font.glyph(c).unwrap();
        assert(glyphs[i] == *glyph);
        let ghost drawn = |px: int, py: int|
            text_covers_prefix(
                glyphs,
                i,
                start,
                kerning_offset as int,
                vertical,
                width as int,
                height as int,
                px,
                py,
            );
        let ghost next = |px: int, py: int|
            text_covers_prefix(
                glyphs,
                i + 1,
                start,
                kerning_offset as int,
                vertical,
                width as int,
                height as int,
                px,
                py,
            );
        blit_glyph(
            canvas,
            glyph,
            start_x,
            start_y,
            color,
            Ghost(old(canvas).cells()),
            Ghost(drawn),
        );
        proof {
            assert forall|px: int, py: int| #[trigger]
                next(px, py) <==> (drawn(px, py) || glyph_covers(
                    *glyph,
                    cursor,
                    width as int,
                    height as int,
                    px,
                    py,
                )) by {
                if drawn(px, py) {
                    let m = choose|m: int|
                        0 <= m < i && m < glyphs.len() && glyph_covers(
                            glyphs[m],
                            #[trigger] cursor_at(
                                glyphs,
                                m,
                                start,
                                kerning_offset as int,
                                vertical,
                                width as int,
                                height as int,
                            ),
                            width as int,
                            height as int,
                            px,
                            py,
                        );
                    assert(0 <= m < i + 1);
                }
                if glyph_covers(*glyph, cursor, width as int, height as int, px, py) {
                    assert(cursor == cursor_at(
                        glyphs,
                        i,
                        start,
                        kerning_offset as int,
                        vertical,
                        width as int,
                        height as int,
                    ));
                }
            }
            lemma_painted_same_cells(
                old(canvas).cells(),
                canvas.cells(),
                width as int,
                height as int,
                color.packed(),
                |px: int, py: int|
                    drawn(px, py) || glyph_covers(
                        *glyph,
                        cursor,
                        width as int,
                        height as int,
                        px,
                        py,
                    ),
                next,
            );
        }
        if vertical {
            proof {
                lemma_wrap_range(start_y + glyph.height + kerning, height as int);
            }
            start_y = (start_y + glyph.height as i64 + kerning) % height;
        } else {
            proof {
                lemma_wrap_range(start_x + glyph.width + kerning, width as int);
            }
            start_x = (start_x + glyph.width as i64 + kerning) % width;
        }
    }
    proof {
        let covered = |px: int, py: int|
            text_covers(
                glyphs,
                start,
                kerning_offset as int,
                vertical,
                canvas.width(),
                canvas.height(),
                px,
                py,
            );
        lemma_painted_same_cells(
            old(canvas).cells(),
            canvas.cells(),
            canvas.width(),
            canvas.height(),
            color.packed(),
            |px: int, py: int|
                text_covers_prefix(
                    glyphs,
                    text@.len() as int,
                    start,
                    kerning_offset as int,
                    vertical,
                    width as int,
                    height as int,
                    px,
                    py,
                ),
            covered,
        );
        lemma_painted_gives_paint(
            old(canvas).cells(),
            canvas.cells(),
            canvas.width(),
            canvas.height(),
            color.packed(),
            covered,
        );
    }
}

} // verus!
