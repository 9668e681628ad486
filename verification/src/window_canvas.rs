use vstd::prelude::*;
use crate::led_canvas::{LedCanvas, LedCanvasTrait};
use crate::pixel_grid::{uniform, well_formed, PixelGrid};
use crate::led_color::LedColor;
use crate::led_font::{Glyph, LedFont};

verus! {

/// The windowed backend: a canvas that owns its buffer and the surface on
/// which the buffer is shown. Drawing changes the buffer alone; the surface
/// shows what the buffer held when `present` was last called.
pub struct WindowCanvas {
    canvas: LedCanvas,
    surface: Vec<u32>,
}

impl WindowCanvas {
    /// What the presentation surface shows, row by row.
    pub closed spec fn surface(&self) -> Seq<u32> {
        self.surface@
    }

    /// A canvas of `height` rows and `width` columns, every cell black,
    /// with a black surface.
    pub fn new(height: u32, width: u32) -> (canvas: Self)
        requires
            width <= i32::MAX,
            height <= i32::MAX,
            height * width <= u32::MAX,
        ensures
            well_formed(canvas),
            canvas.width() == width,
            canvas.height() == height,
            canvas.cells() == uniform((width * height) as nat, 0),
            canvas.surface() == canvas.cells(),
    {
        let canvas = LedCanvas::new(height, width);
        let surface = canvas.pixels().clone();
        Self { canvas, surface }
    }

    /// Copies the buffer to the presentation surface.
    pub fn present(&mut self)
        ensures
            well_formed(*final(self)),
            final(self).width() == old(self).width(),
            final(self).height() == old(self).height(),
            final(self).cells() == old(self).cells(),
            final(self).surface() == old(self).cells(),
    {
        self.surface = self.canvas.pixels().clone();
    }

    /// Number of cells in the buffer: always width times height.
    pub fn buffer_len(&self) -> (len: usize)
        ensures
            len == self.cells().len(),
            len == self.width() * self.height(),
    {
        self.canvas.buffer_len()
    }

    /// The buffer, row by row.
    pub fn pixels(&self) -> (buffer: &Vec<u32>)
        ensures
            buffer@ == self.cells(),
            well_formed(*self),
    {
        self.canvas.pixels()
    }

    /// The presentation surface, row by row.
    pub fn surface_pixels(&self) -> (shown: &Vec<u32>)
        ensures
            shown@ == self.surface(),
    {
        &self.surface
    }
}

impl PixelGrid for WindowCanvas {
    closed spec fn width(&self) -> int {
        self.canvas.width()
    }

    closed spec fn height(&self) -> int {
        self.canvas.height()
    }

    closed spec fn cells(&self) -> Seq<u32> {
        self.canvas.cells()
    }

    fn canvas_size(&self) -> (size: (i32, i32)) {
        self.canvas.canvas_size()
    }

    fn set(&mut self, x: i32, y: i32, color: &LedColor)
        ensures
            final(self).surface() == old(self).surface(),
    {
        self.canvas.set(x, y, color);
    }
}

impl LedCanvasTrait for WindowCanvas {
    fn fill(&mut self, color: &LedColor)
        ensures
            final(self).surface() == old(self).surface(),
    {
        self.canvas.fill(color);
    }

    fn clear(&mut self)
        ensures
            final(self).surface() == old(self).surface(),
    {
        self.canvas.clear();
    }

    fn draw_line(&mut self, x0: i32, y0: i32, x1: i32, y1: i32, color: &LedColor)
        ensures
            final(self).surface() == old(self).surface(),
    {
        self.canvas.draw_line(x0, y0, x1, y1, color);
    }

    fn draw_circle(&mut self, x: i32, y: i32, radius: u32, color: &LedColor)
        ensures
            final(self).surface() == old(self).surface(),
    {
        self.canvas.draw_circle(x, y, radius, color);
    }

    fn draw_glyph(&mut self, glyph: &Glyph, x: i32, y: i32, color: &LedColor)
        ensures
            final(self).surface() == old(self).surface(),
    {
        self.canvas.draw_glyph(glyph, x, y, color);
    }

    fn draw_text(
        &mut self,
        font: &LedFont,
        text: &str,
        x: i32,
        y: i32,
        color: &LedColor,
        kerning_offset: i32,
        vertical: bool,
    )
        ensures
            final(self).surface() == old(self).surface(),
    {
        self.canvas.draw_text(font, text, x, y, color, kerning_offset, vertical);
    }
}

} // verus!
