use vstd::prelude::*;

verus! {

/// A square convolution kernel stored row major: coefficient (x, y) is at
/// `y * size + x`.
pub struct Kernel<T> {
    pub data: Vec<T>,
    pub size: u32,
}

impl<T> Kernel<T> {
    /// The data holds exactly `size * size` coefficients.
    pub open spec fn wf(&self) -> bool {
        self.data@.len() == self.size as int * self.size as int
    }

    /// The coefficient at column `x` of row `y`.
    pub fn coeff(&self, x: u32, y: u32) -> (r: &T)
        requires
            self.wf(),
            x < self.size,
            y < self.size,
        ensures
            *r == self.data@[y * self.size as int + x],
    {
        let len: usize = self.data.len();
        proof {
            assert(0 <= y * self.size <= y * self.size + x < self.size as int * self.size as int) by (nonlinear_arith)
                requires x < self.size, y < self.size;
        }
        let idx = y as usize * self.size as usize + x as usize;
        &self.data[idx]
    }
}

} // verus!
