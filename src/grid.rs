//! A single-channel image held as plain values.
use vstd::prelude::*;

verus! {

/// A grayscale image: `width` x `height` luma samples, row by row.
pub struct LumaGrid {
    pub width: u32,
    pub height: u32,
    pub samples: Vec<u8>,
}

impl LumaGrid {
    /// The samples are exactly one per pixel.
    pub open spec fn wf(&self) -> bool {
        self.samples@.len() == self.width as int * self.height as int
    }

    /// A grid over the first `width * height` of `samples`; `None` when
    /// there are fewer than that.
    pub fn from_raw(width: u32, height: u32, samples: Vec<u8>) -> (r: Option<LumaGrid>)
        ensures
            r is Some <==> samples@.len() >= width as int * height as int,
            r matches Some(g) ==> {
                &&& g.wf()
                &&& g.width == width
                &&& g.height == height
                &&& g.samples@ == samples@.take(width as int * height as int)
            },
    {
        assert(width as u64 * height as u64 <= u32::MAX as u64 * u32::MAX as u64) by (nonlinear_arith);
        let n: u64 = width as u64 * height as u64;
        if (samples.len() as u64) < n {
            return None;
        }
        let mut samples = samples;
        samples.truncate(n as usize);
        Some(LumaGrid { width, height, samples })
    }
}

} // verus!
