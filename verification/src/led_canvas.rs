use vstd::prelude::*;
use crate::circle::on_circle;
use crate::led_color::LedColor;
use crate::led_font::{Glyph, LedFont};
use crate::line::on_line;
use crate::pixel_grid::{lemma_cell_index, paint, uniform, valid_grid, well_formed, PixelGrid};
use crate::raster::{rasterise_circle, rasterise_glyph, rasterise_line, rasterise_text};
use crate::text::{glyph_covers, text_covers};

verus! {

/// The drawing surface of one panel: a pixel grid with the fill, line,
/// circle and text operations. A backend says how it holds its buffer; the
/// rasterisers are the same for every backend.
pub trait LedCanvasTrait: PixelGrid {
    /// Writes `color` to every cell.
    fn fill(&mut self, color: &LedColor)
        ensures
            well_formed(*final(self)),
            final(self).width() == old(self).width(),
            final(self).height() == old(self).height(),
            final(self).cells() == uniform(old(self).cells().len(), color.packed()),
    ;

    /// Writes black to every cell.
    fn clear(&mut self)
        ensures
            well_formed(*final(self)),
            final(self).width() == old(self).width(),
            final(self).height() == old(self).height(),
            final(self).cells() == uniform(old(self).cells().len(), 0),
    {
        self.fill(&LedColor::zero())
    }

    /// Draws the discrete segment from `(x0, y0)` to `(x1, y1)`, both ends
    /// included, pixel by pixel through the bounds check of `set`.
    fn draw_line(&mut self, x0: i32, y0: i32, x1: i32, y1: i32, color: &LedColor)
        ensures
            well_formed(*final(self)),
            final(self).width() == old(self).width(),
            final(self).height() == old(self).height(),
            final(self).cells() == paint(
                old(self).cells(),
                old(self).width(),
                color.packed(),
                |x: int, y: int| on_line(x0 as int, y0 as int, x1 as int, y1 as int, x, y),
            ),
    {
        rasterise_line(self, x0, y0, x1, y1, color)
    }

    /// Draws the outline of the circle of the given radius round `(x, y)`,
    /// eight mirrored cells per column of one octant, each through the
    /// bounds check of `set`. Radius zero draws the centre cell.
    fn draw_circle(&mut self, x: i32, y: i32, radius: u32, color: &LedColor)
        ensures
            well_formed(*final(self)),
            final(self).width() == old(self).width(),
            final(self).height() == old(self).height(),
            final(self).cells() == paint(
                old(self).cells(),
                old(self).width(),
                color.packed(),
                |px: int, py: int| on_circle(x as int, y as int, radius as int, px, py),
            ),
    {
        rasterise_circle(self, x, y, radius, color)
    }

    /// Draws one glyph with its first cell at `(x, y)`. A lit cell that
    /// lands past the right or bottom edge comes back in at the opposite
    /// edge.
    fn draw_glyph(&mut self, glyph: &Glyph, x: i32, y: i32, color: &LedColor)
        requires
            old(self).width() > 0,
            old(self).height() > 0,
        ensures
            well_formed(*final(self)),
            final(self).width() == old(self).width(),
            final(self).height() == old(self).height(),
            final(self).cells() == paint(
                old(self).cells(),
                old(self).width(),
                color.packed(),
                |px: int, py: int|
                    glyph_covers(
                        *glyph,
                        (x as int, y as int),
                        old(self).width(),
                        old(self).height(),
                        px,
                        py,
                    ),
            ),
    {
        rasterise_glyph(self, glyph, x, y, color)
    }

    /// Draws `text` from `(x, y)`, one glyph of `font` per character. Lit
    /// cells wrap to the canvas extent. After each glyph the cursor moves
    /// by the glyph's width, or by its height where `vertical` is set, plus
    /// the kerning offset where that is positive, and wraps in turn.
    fn draw_text(
        &mut self,
        font: &LedFont,
        text: &str,
        x: i32,
        y: i32,
        color: &LedColor,
        kerning_offset: i32,
        vertical: bool,
    )
        requires
            font.covers(text@),
            text@.len() > 0 ==> old(self).width() > 0 && old(self).height() > 0,
        ensures
            well_formed(*final(self)),
            final(self).width() == old(self).width(),
            final(self).height() == old(self).height(),
            final(self).cells() == paint(
                old(self).cells(),
                old(self).width(),
                color.packed(),
                |px: int, py: int|
                    text_covers(
                        font.text_glyphs(text@),
                        (x as int, y as int),
                        kerning_offset as int,
                        vertical,
                        old(self).width(),
                        old(self).height(),
                        px,
                        py,
                    ),
            ),
    {
        rasterise_text(self, font, text, x, y, color, kerning_offset, vertical)
    }
}

/// The headless backend: a canvas that owns its buffer and nothing else.
/// Tasks that share one canvas put it behind their lock; a reader takes the
/// buffer with `pixels`.
pub struct LedCanvas {
    width: u32,
    height: u32,
    pixel_buffer: Vec<u32>,
}

impl LedCanvas {
    #[verifier::type_invariant]
    spec fn valid(self) -> bool {
        valid_grid(self.width as int, self.height as int, self.pixel_buffer@)
    }

    /// A canvas of `height` rows and `width` columns, every cell black.
    pub fn new(height: u32, width: u32) -> (canvas: Self)
        requires
            width <= i32::MAX,
            height <= i32::MAX,
            height * width <= u32::MAX,
        ensures
            well_formed(canvas),
            canvas.width() == width,
            canvas.height() == height,
            canvas.cells() == uniform((width * height) as nat, 0),
    {
        assert(height * width == width * height) by (nonlinear_arith);
        let len: u32 = height * width;
        let black: u32 = LedColor::zero().to_packed();
        let mut pixel_buffer: Vec<u32> = Vec::with_capacity(len as usize);
        let mut filled: u32 = 0;
        while filled < len
            invariant
                filled <= len,
                black == 0,
                pixel_buffer@ == uniform(filled as nat, 0),
            decreases len - filled,
        {
            pixel_buffer.push(black);
            filled = filled + 1;
        }
        Self { width, height, pixel_buffer }
    }

    /// Number of cells in the buffer: always width times height.
    pub fn buffer_len(&self) -> (len: usize)
        ensures
            len == self.cells().len(),
            len == self.width() * self.height(),
    {
        proof {
            use_type_invariant(self);
        }
        self.pixel_buffer.len()
    }

    /// The buffer, row by row, for presenting.
    pub fn pixels(&self) -> (buffer: &Vec<u32>)
        ensures
            buffer@ == self.cells(),
            well_formed(*self),
    {
        proof {
            use_type_invariant(self);
        }
        &self.pixel_buffer
    }
}

impl PixelGrid for LedCanvas {
    closed spec fn width(&self) -> int {
        self.width as int
    }

    closed spec fn height(&self) -> int {
        self.height as int
    }

    closed spec fn cells(&self) -> Seq<u32> {
        self.pixel_buffer@
    }

    fn canvas_size(&self) -> (size: (i32, i32)) {
        proof {
            use_type_invariant(self);
        }
        (self.width as i32, self.height as i32)
    }

    fn set(&mut self, x: i32, y: i32, color: &LedColor) {
        proof {
            use_type_invariant(&*self);
        }
        if x < 0 || x >= self.width as i32 || y < 0 || y >= self.height as i32 {
            return ;
        }
        proof {
            lemma_cell_index(self.width as int, self.height as int, x as int, y as int);
        }
        let index: usize = y as usize * self.width as usize + x as usize;
        self.pixel_buffer[index] = color.to_packed();
    }
}

impl LedCanvasTrait for LedCanvas {
    fn fill(&mut self, color: &LedColor) {
        proof {
            use_type_invariant(&*self);
        }
        let value: u32 = color.to_packed();
        let len: usize = self.pixel_buffer.len();
        let mut i: usize = 0;
        while i < len
            invariant
                i <= len,
                len == self.pixel_buffer@.len(),
                self.width == old(self).width,
                self.height == old(self).height,
                self.pixel_buffer@.len() == old(self).pixel_buffer@.len(),
                well_formed(*self),
                forall|k: int| 0 <= k < i ==> self.pixel_buffer@[k] == value,
            decreases len - i,
        {
            self.pixel_buffer[i] = value;
            i = i + 1;
        }
    }
}

} // verus!
