use vstd::prelude::*;

verus! {

/// Tuning of the panel driver.
#[derive(Debug)]
pub struct LedRuntimeOptions {
    pub gpio_slowdown: u32,
}

impl LedRuntimeOptions {
    /// A slowdown factor of one.
    pub fn new() -> (options: Self)
        ensures
            options.gpio_slowdown == 1,
    {
        Self { gpio_slowdown: 1 }
    }

    /// Sets the slowdown factor. Any factor is taken.
    pub fn set_gpio_slowdown(&mut self, gpio_slowdown: u32)
        ensures
            final(self).gpio_slowdown == gpio_slowdown,
    {
        self.gpio_slowdown = gpio_slowdown;
    }
}

} // verus!
