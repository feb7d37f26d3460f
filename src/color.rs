use vstd::prelude::*;

verus! {

/// A color with three 8-bit channels.
#[derive(Clone, Copy, Debug, PartialEq, Eq, Structural)]
pub struct RGB {
    pub red: u8,
    pub green: u8,
    pub blue: u8,
}

impl RGB {
    /// Channel `k` (0 red, 1 green, 2 blue) as an integer.
    pub open spec fn channel(self, k: int) -> int {
        if k == 0 {
            self.red as int
        } else if k == 1 {
            self.green as int
        } else {
            self.blue as int
        }
    }
}

/// Per-channel reflection coefficients, in thousandths (500 stands for 0.5).
#[derive(Clone, Copy, Debug, PartialEq, Eq, Structural)]
pub struct Coeffs {
    pub red: u16,
    pub green: u16,
    pub blue: u16,
}

impl Coeffs {
    /// Coefficient of channel `k` (0 red, 1 green, 2 blue), in thousandths.
    pub open spec fn channel(self, k: int) -> int {
        if k == 0 {
            self.red as int
        } else if k == 1 {
            self.green as int
        } else {
            self.blue as int
        }
    }
}

} // verus!
