use vstd::prelude::*;
use crate::led_canvas::LedCanvas;
use crate::pixel_grid::{uniform, well_formed, PixelGrid};
use crate::led_matrix_options::LedMatrixOptions;
use crate::led_runtime_options::LedRuntimeOptions;
use crate::window_canvas::WindowCanvas;

verus! {

/// Rows of the panel that `setup` configures.
pub const MATRIX_HEIGHT: u32 = 64;

/// Columns of the panel that `setup` configures.
pub const MATRIX_WIDTH: u32 = 64;

/// A configured panel, from which the canvas is made.
#[derive(Debug)]
pub struct LedMatrix {
    pub options: LedMatrixOptions,
    pub runtime_options: LedRuntimeOptions,
}

impl LedMatrix {
    /// A matrix of the given options; the defaults stand in for whichever
    /// of the two is left out. This never fails.
    pub fn new(
        options: Option<LedMatrixOptions>,
        runtime_options: Option<LedRuntimeOptions>,
    ) -> (matrix: Result<Self, String>)
        ensures
            matrix is Ok,
            match options {
                Some(given) => matrix.unwrap().options == given,
                None => {
                    &&& matrix.unwrap().options.rows == 32
                    &&& matrix.unwrap().options.cols == 32
                    &&& matrix.unwrap().options.hardware_mapping@ == "regular"@
                },
            },
            match runtime_options {
                Some(given) => matrix.unwrap().runtime_options == given,
                None => matrix.unwrap().runtime_options.gpio_slowdown == 1,
            },
    {
        let options = match options {
            Some(given) => given,
            None => LedMatrixOptions::new(),
        };
        let runtime_options = match runtime_options {
            Some(given) => given,
            None => LedRuntimeOptions::new(),
        };
        Ok(Self { options, runtime_options })
    }

    /// Whether a canvas of the configured geometry can be made: both
    /// extents fit a signed 32-bit coordinate and the cell count fits 32
    /// bits.
    pub open spec fn fits(&self) -> bool {
        &&& self.options.rows <= i32::MAX
        &&& self.options.cols <= i32::MAX
        &&& self.options.rows * self.options.cols <= u32::MAX
    }

    /// Tells whether a canvas of the configured geometry can be made.
    pub fn can_make_canvas(&self) -> (fits: bool)
        ensures
            fits == self.fits(),
    {
        let rows: u64 = self.options.rows as u64;
        let cols: u64 = self.options.cols as u64;
        if rows > 0x7fff_ffff || cols > 0x7fff_ffff {
            return false;
        }
        assert(rows * cols <= 0x7fff_ffff * 0x7fff_ffff) by (nonlinear_arith)
            requires
                rows <= 0x7fff_ffff,
                cols <= 0x7fff_ffff,
        ;
        rows * cols <= 0xffff_ffff
    }

    /// A black canvas of `rows` rows and `cols` columns.
    pub fn offscreen_canvas(&self) -> (canvas: LedCanvas)
        requires
            self.fits(),
        ensures
            well_formed(canvas),
            canvas.height() == self.options.rows,
            canvas.width() == self.options.cols,
            canvas.cells() == uniform((self.options.cols * self.options.rows) as nat, 0),
    {
        LedCanvas::new(self.options.rows, self.options.cols)
    }

    /// A black canvas of `rows` rows and `cols` columns that owns its
    /// presentation surface.
    pub fn window_canvas(&self) -> (canvas: WindowCanvas)
        requires
            self.fits(),
        ensures
            well_formed(canvas),
            canvas.height() == self.options.rows,
            canvas.width() == self.options.cols,
            canvas.cells() == uniform((self.options.cols * self.options.rows) as nat, 0),
            canvas.surface() == canvas.cells(),
    {
        WindowCanvas::new(self.options.rows, self.options.cols)
    }
}

/// The canvas of the 64 by 64 panel, wired through the `adafruit-hat`
/// mapping with a slowdown factor of four.
pub fn setup() -> (canvas: LedCanvas)
    ensures
        well_formed(canvas),
        canvas.width() == 64,
        canvas.height() == 64,
        canvas.cells() == uniform(4096, 0),
{
    let mut options = LedMatrixOptions::new();
    options.set_cols(MATRIX_WIDTH);
    options.set_rows(MATRIX_HEIGHT);
    options.set_hardware_mapping("adafruit-hat");
    let mut rt_options = LedRuntimeOptions::new();
    rt_options.set_gpio_slowdown(4);
    let matrix = LedMatrix::new(Some(options), Some(rt_options));
    matrix.unwrap().offscreen_canvas()
}

} // verus!
