use vstd::prelude::*;
use crate::led_color::LedColor;

verus! {

/// Where the cell of column `x` and row `y` lies in a row-major buffer of
/// the given width.
pub open spec fn cell_index(width: int, x: int, y: int) -> int {
    y * width + x
}

/// Whether `(x, y)` names a cell of a `width` by `height` canvas.
pub open spec fn in_bounds(width: int, height: int, x: int, y: int) -> bool {
    0 <= x < width && 0 <= y < height
}

/// A buffer of `len` cells that all hold `value`.
pub open spec fn uniform(len: nat, value: u32) -> Seq<u32> {
    Seq::new(len, |i: int| value)
}

/// The buffer after one bounds-checked write: the cell at `(x, y)` holds
/// `value` if the coordinate lies on the canvas, and nothing changes if it
/// does not.
pub open spec fn plot(cells: Seq<u32>, width: int, height: int, x: int, y: int, value: u32) -> Seq<
    u32,
> {
    if in_bounds(width, height, x, y) {
        cells.update(cell_index(width, x, y), value)
    } else {
        cells
    }
}

/// `after` is `before` with `value` written to exactly the on-canvas cells
/// that `touched` selects.
pub open spec fn painted(
    before: Seq<u32>,
    after: Seq<u32>,
    width: int,
    height: int,
    value: u32,
    touched: spec_fn(int, int) -> bool,
) -> bool {
    &&& after.len() == before.len()
    &&& forall|x: int, y: int|
        in_bounds(width, height, x, y) ==> #[trigger] after[cell_index(width, x, y)] == if touched(
            x,
            y,
        ) {
            value
        } else {
            before[cell_index(width, x, y)]
        }
}

/// The column of the cell at `index` of a row-major buffer.
pub open spec fn cell_x(width: int, index: int) -> int {
    index % width
}

/// The row of the cell at `index` of a row-major buffer.
pub open spec fn cell_y(width: int, index: int) -> int {
    index / width
}

/// The buffer `before` with `value` written to exactly the cells whose
/// coordinates `touched` selects.
pub open spec fn paint(
    before: Seq<u32>,
    width: int,
    value: u32,
    touched: spec_fn(int, int) -> bool,
) -> Seq<u32> {
    Seq::new(
        before.len(),
        |i: int|
            if touched(cell_x(width, i), cell_y(width, i)) {
                value
            } else {
                before[i]
            },
    )
}

/// Every cell of a buffer is the cell of one on-canvas coordinate.
pub proof fn lemma_cell_coordinates(width: int, height: int, index: int)
    requires
        0 <= width,
        0 <= height,
        0 <= index < width * height,
    ensures
        in_bounds(width, height, cell_x(width, index), cell_y(width, index)),
        cell_index(width, cell_x(width, index), cell_y(width, index)) == index,
{
    if width == 0 {
        assert(width * height == 0) by (nonlinear_arith)
            requires
                width == 0,
        ;
    } else {
        let x = index % width;
        let y = index / width;
        vstd::arithmetic::div_mod::lemma_fundamental_div_mod(index, width);
        vstd::arithmetic::div_mod::lemma_mod_pos_bound(index, width);
        assert(width * y == y * width) by (nonlinear_arith);
        assert(0 <= y < height) by (nonlinear_arith)
            requires
                0 <= index < width * height,
                index == y * width + x,
                0 <= x < width,
        ;
    }
}

/// A buffer that was painted cell by cell is the painted buffer.
pub proof fn lemma_painted_gives_paint(
    before: Seq<u32>,
    after: Seq<u32>,
    width: int,
    height: int,
    value: u32,
    touched: spec_fn(int, int) -> bool,
)
    requires
        0 <= width,
        0 <= height,
        before.len() == width * height,
        painted(before, after, width, height, value, touched),
    ensures
        after == paint(before, width, value, touched),
{
    let target = paint(before, width, value, touched);
    assert forall|i: int| 0 <= i < after.len() implies after[i] == target[i] by {
        lemma_cell_coordinates(width, height, i);
        assert(after[cell_index(width, cell_x(width, i), cell_y(width, i))] == after[i]);
    }
    assert(after =~= target);
}

/// The painted buffer holds `value` in the on-canvas cells that `touched`
/// selects, and what `before` held in all others.
pub proof fn lemma_paint_gives_painted(
    before: Seq<u32>,
    width: int,
    height: int,
    value: u32,
    touched: spec_fn(int, int) -> bool,
)
    requires
        before.len() == width * height,
    ensures
        painted(before, paint(before, width, value, touched), width, height, value, touched),
{
    let after = paint(before, width, value, touched);
    assert forall|x: int, y: int|
        in_bounds(width, height, x, y) implies #[trigger] after[cell_index(width, x, y)]
            == if touched(x, y) {
        value
    } else {
        before[cell_index(width, x, y)]
    } by {
        lemma_cell_index(width, height, x, y);
    }
}

/// One more bounds-checked write of the same value extends what a run of
/// such writes has painted by the coordinate written to.
pub proof fn lemma_painted_step(
    before: Seq<u32>,
    mid: Seq<u32>,
    width: int,
    height: int,
    value: u32,
    x: int,
    y: int,
    touched_before: spec_fn(int, int) -> bool,
    touched_after: spec_fn(int, int) -> bool,
)
    requires
        before.len() == width * height,
        painted(before, mid, width, height, value, touched_before),
        forall|px: int, py: int|
            #[trigger] touched_after(px, py) <==> (touched_before(px, py) || (px == x && py == y)),
    ensures
        painted(before, plot(mid, width, height, x, y, value), width, height, value, touched_after),
{
    let after = plot(mid, width, height, x, y, value);
    if in_bounds(width, height, x, y) {
        lemma_cell_index(width, height, x, y);
    }
    assert forall|px: int, py: int|
        in_bounds(width, height, px, py) implies #[trigger] after[cell_index(width, px, py)]
            == if touched_after(px, py) {
        value
    } else {
        before[cell_index(width, px, py)]
    } by {
        lemma_cell_index(width, height, px, py);
        assert(mid[cell_index(width, px, py)] == if touched_before(px, py) {
            value
        } else {
            before[cell_index(width, px, py)]
        });
    }
}

/// What a run of writes has painted may be described by any predicate that
/// selects the same cells.
pub proof fn lemma_painted_same_cells(
    before: Seq<u32>,
    after: Seq<u32>,
    width: int,
    height: int,
    value: u32,
    touched: spec_fn(int, int) -> bool,
    described: spec_fn(int, int) -> bool,
)
    requires
        painted(before, after, width, height, value, touched),
        forall|px: int, py: int|
            in_bounds(width, height, px, py) ==> (#[trigger] described(px, py) <==> touched(
                px,
                py,
            )),
    ensures
        painted(before, after, width, height, value, described),
{
    assert forall|px: int, py: int|
        in_bounds(width, height, px, py) implies #[trigger] after[cell_index(width, px, py)]
            == if described(px, py) {
        value
    } else {
        before[cell_index(width, px, py)]
    } by {
        assert(described(px, py) <==> touched(px, py));
    }
}

/// Every on-canvas coordinate has a cell of its own in the buffer.
pub proof fn lemma_cell_index(width: int, height: int, x: int, y: int)
    requires
        in_bounds(width, height, x, y),
    ensures
        0 <= y * width <= cell_index(width, x, y) < width * height,
        cell_index(width, x, y) % width == x,
        cell_index(width, x, y) / width == y,
{
    assert(0 <= y * width && y * width + width <= height * width) by (nonlinear_arith)
        requires
            0 <= y < height,
            0 < width,
    ;
    assert(height * width == width * height) by (nonlinear_arith);
    vstd::arithmetic::div_mod::lemma_fundamental_div_mod_converse(
        cell_index(width, x, y),
        width,
        y,
        x,
    );
}

/// A write at a coordinate off the canvas leaves every cell as it was.
pub proof fn lemma_plot_off_canvas(
    cells: Seq<u32>,
    width: int,
    height: int,
    x: int,
    y: int,
    value: u32,
)
    requires
        !in_bounds(width, height, x, y),
    ensures
        plot(cells, width, height, x, y, value) == cells,
{
}

/// A write at a coordinate on the canvas changes the cell of that
/// coordinate and no other.
pub proof fn lemma_plot_on_canvas(
    cells: Seq<u32>,
    width: int,
    height: int,
    x: int,
    y: int,
    value: u32,
)
    requires
        cells.len() == width * height,
        in_bounds(width, height, x, y),
    ensures
        plot(cells, width, height, x, y, value).len() == cells.len(),
        plot(cells, width, height, x, y, value)[cell_index(width, x, y)] == value,
        forall|px: int, py: int|
            in_bounds(width, height, px, py) && (px != x || py != y) ==> #[trigger] plot(
                cells,
                width,
                height,
                x,
                y,
                value,
            )[cell_index(width, px, py)] == cells[cell_index(width, px, py)],
{
    lemma_cell_index(width, height, x, y);
    assert forall|px: int, py: int|
        in_bounds(width, height, px, py) && (px != x || py != y) implies #[trigger] plot(
        cells,
        width,
        height,
        x,
        y,
        value,
    )[cell_index(width, px, py)] == cells[cell_index(width, px, py)] by {
        lemma_cell_index(width, height, px, py);
    }
}

/// Filling a buffer with any colour and then clearing it gives the buffer
/// of a canvas of the same size that was just made: all black.
pub proof fn lemma_fill_then_clear(cells: Seq<u32>, width: int, height: int, value: u32)
    requires
        cells.len() == width * height,
    ensures
        uniform(uniform(cells.len(), value).len(), 0) == uniform((width * height) as nat, 0),
{
}

/// A buffer of `cells` holds one cell per coordinate of a `width` by
/// `height` grid, both extents fit the signed coordinates that the drawing
/// calls take, and the cell count fits 32 bits.
pub open spec fn valid_grid(width: int, height: int, cells: Seq<u32>) -> bool {
    &&& 0 <= width <= i32::MAX
    &&& 0 <= height <= i32::MAX
    &&& width * height <= u32::MAX
    &&& cells.len() == width * height
}

/// A grid of pixels that is written cell by cell.
pub trait PixelGrid: Sized {
    /// Number of columns.
    spec fn width(&self) -> int;

    /// Number of rows.
    spec fn height(&self) -> int;

    /// The buffer, row by row.
    spec fn cells(&self) -> Seq<u32>;

    /// The canvas extent as `(width, height)`.
    fn canvas_size(&self) -> (size: (i32, i32))
        ensures
            size.0 == self.width(),
            size.1 == self.height(),
            valid_grid(self.width(), self.height(), self.cells()),
    ;

    /// Writes `color` to the cell at `(x, y)`. A coordinate off the canvas
    /// is ignored.
    fn set(&mut self, x: i32, y: i32, color: &LedColor)
        ensures
            valid_grid(final(self).width(), final(self).height(), final(self).cells()),
            final(self).width() == old(self).width(),
            final(self).height() == old(self).height(),
            final(self).cells() == plot(
                old(self).cells(),
                old(self).width(),
                old(self).height(),
                x as int,
                y as int,
                color.packed(),
            ),
    ;
}

/// The buffer of a grid holds one cell per coordinate, both extents fit the
/// signed coordinates that the drawing calls take, and the cell count fits
/// 32 bits.
pub open spec fn well_formed<C: PixelGrid>(grid: C) -> bool {
    valid_grid(grid.width(), grid.height(), grid.cells())
}

} // verus!
