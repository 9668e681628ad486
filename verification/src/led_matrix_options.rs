use vstd::prelude::*;
use vstd::string::StringExecFns;

verus! {

/// The geometry and wiring of a panel. The hardware mapping is a name that
/// only the panel driver reads.
#[derive(Debug)]
pub struct LedMatrixOptions {
    pub rows: u32,
    pub cols: u32,
    pub hardware_mapping: String,
}

impl LedMatrixOptions {
    /// A 32 by 32 panel with the `regular` hardware mapping.
    pub fn new() -> (options: Self)
        ensures
            options.rows == 32,
            options.cols == 32,
            options.hardware_mapping@ == "regular"@,
    {
        Self { rows: 32, cols: 32, hardware_mapping: String::from_str("regular") }
    }

    /// Sets the number of columns.
    pub fn set_cols(&mut self, cols: u32)
        ensures
            final(self).cols == cols,
            final(self).rows == old(self).rows,
            final(self).hardware_mapping == old(self).hardware_mapping,
    {
        self.cols = cols;
    }

    /// Sets the number of rows.
    pub fn set_rows(&mut self, rows: u32)
        ensures
            final(self).rows == rows,
            final(self).cols == old(self).cols,
            final(self).hardware_mapping == old(self).hardware_mapping,
    {
        self.rows = rows;
    }

    /// Sets the name of the hardware mapping. Any name is taken.
    pub fn set_hardware_mapping(&mut self, hardware_mapping: &str)
        ensures
            final(self).hardware_mapping@ == hardware_mapping@,
            final(self).rows == old(self).rows,
            final(self).cols == old(self).cols,
    {
        self.hardware_mapping = String::from_str(hardware_mapping);
    }
}

} // verus!
