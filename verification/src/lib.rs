//! Rendering core of a clock and weather display on an RGB LED matrix
//! panel: a 24-bit colour model, a pixel canvas with line, circle and
//! bitmap-font rasterisation behind one interface for its two backends, the
//! panel configuration from which a canvas is built, and the clock face and
//! weather panel that are drawn on it.
//!
//! Every drawing call says which buffer it leaves behind: `plot` for one
//! cell, `uniform` for a fill, and `paint` with the cells that a line, a
//! circle or a text covers. The modules `line`, `circle` and `text` say
//! which cells those are.

pub mod circle;
pub mod clock;
pub mod led_canvas;
pub mod led_color;
pub mod led_font;
pub mod led_matrix;
pub mod led_matrix_options;
pub mod led_runtime_options;
pub mod line;
pub mod pixel_grid;
mod raster;
pub mod text;
pub mod weather;
pub mod window_canvas;

pub use led_canvas::{LedCanvas, LedCanvasTrait};
pub use led_color::LedColor;
pub use led_font::{Glyph, GlyphPixel, LedFont};
pub use led_matrix::{setup, LedMatrix};
pub use led_matrix_options::LedMatrixOptions;
pub use led_runtime_options::LedRuntimeOptions;
pub use pixel_grid::PixelGrid;
pub use window_canvas::WindowCanvas;
