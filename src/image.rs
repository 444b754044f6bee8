use vstd::prelude::*;

verus! {

/// A single-channel image stored row major: sample (x, y) is at `y * width + x`.
pub struct Image<T> {
    pub data: Vec<T>,
    pub width: u32,
    pub height: u32,
}

impl<T> Image<T> {
    /// The data holds exactly one sample per pixel.
    pub open spec fn wf(&self) -> bool {
        self.data@.len() == self.width as int * self.height as int
    }

    /// Position of pixel (x, y) in the data.
    pub open spec fn offset(&self, x: int, y: int) -> int {
        y * self.width as int + x
    }

    /// A `width` x `height` image whose every sample is `value`.
    pub fn new(width: u32, height: u32, value: T) -> (r: Self) where T: Copy
        requires
            width as int * height as int <= u32::MAX,
        ensures
            r.wf(),
            r.width == width,
            r.height == height,
            forall|i: int| 0 <= i < r.data@.len() ==> r.data@[i] == value,
    {
        let len = width * height;
        let mut data: Vec<T> = Vec::with_capacity(len as usize);
        let mut i: u32 = 0;
        while i < len
            invariant
                i <= len,
                data@.len() == i,
                forall|j: int| 0 <= j < i ==> data@[j] == value,
            decreases len - i,
        {
            data.push(value);
            i = i + 1;
        }
        Image { width, height, data }
    }

    /// Number of pixels.
    pub fn size(&self) -> (r: u32)
        requires
            self.width as int * self.height as int <= u32::MAX,
        ensures
            r == self.width as int * self.height as int,
    {
        self.width * self.height
    }

    /// The sample at column `x` of row `y`.
    pub fn pixel(&self, x: u32, y: u32) -> (r: &T)
        requires
            self.wf(),
            x < self.width,
            y < self.height,
        ensures
            *r == self.data@[self.offset(x as int, y as int)],
    {
        let len: usize = self.data.len();
        proof {
            assert(0 <= y * self.width <= y * self.width + x < self.width as int * self.height as int) by (nonlinear_arith)
                requires x < self.width, y < self.height;
        }
        let idx = y as usize * self.width as usize + x as usize;
        &self.data[idx]
    }
}

} // verus!
