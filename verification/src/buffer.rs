use vstd::prelude::*;

verus! {

/// A `width` x `height` grid of RGBA pixels, row-major: the pixel at column
/// `x` of row `y` sits at index `y * width + x` of `data`.
///
/// Each pixel is four 8-bit channels, in the order red, green, blue, alpha.
#[derive(Debug, PartialEq, Eq)]
pub struct PixelBuffer {
    pub width: u32,
    pub height: u32,
    pub data: Vec<[u8; 4]>,
}

impl PixelBuffer {
    /// Well-formed: `data` holds exactly one pixel per grid cell.
    pub open spec fn wf(&self) -> bool {
        self.data@.len() == self.width * self.height
    }

    /// The pixel at column `x` of row `y`.
    pub open spec fn pixel_at(&self, x: int, y: int) -> [u8; 4] {
        self.data@[y * self.width + x]
    }

    /// Build a buffer of the given dimensions with every pixel set to `color`.
    pub fn filled(width: u32, height: u32, color: [u8; 4]) -> (r: Self)
        requires
            width > 0,
            height > 0,
            width * height <= usize::MAX,
        ensures
            r.wf(),
            r.width == width,
            r.height == height,
            forall|k: int| 0 <= k < r.data@.len() ==> r.data@[k] == color,
            forall|x: int, y: int|
                0 <= x < width && 0 <= y < height ==> r.pixel_at(x, y) == color,
    {
        let total: usize = (width as usize) * (height as usize);
        let mut data: Vec<[u8; 4]> = Vec::new();
        let mut k: usize = 0;
        while k < total
            invariant
                k <= total,
                data@.len() == k,
                forall|j: int| 0 <= j < k ==> data@[j] == color,
            decreases total - k,
        {
            data.push(color);
            k = k + 1;
        }
        let r = PixelBuffer { width, height, data };
        proof {
            assert forall|x: int, y: int|
                0 <= x < width && 0 <= y < height implies r.pixel_at(x, y) == color by {
                lemma_grid_index_in_range(x, y, width as int, height as int);
            }
        }
        r
    }

    /// Read the pixel at column `x` of row `y`.
    pub fn pixel(&self, x: u32, y: u32) -> (r: [u8; 4])
        requires
            self.wf(),
            x < self.width,
            y < self.height,
        ensures
            r == self.pixel_at(x as int, y as int),
    {
        // Reading the length as a usize bounds data@.len(), so the row-major
        // index arithmetic below cannot overflow.
        let _n: usize = self.data.len();
        proof {
            lemma_grid_index_in_range(x as int, y as int, self.width as int, self.height as int);
        }
        let idx: usize = (y as usize) * (self.width as usize) + (x as usize);
        self.data[idx]
    }
}

/// A cell inside the grid maps to an index inside the row-major pixel vector.
proof fn lemma_grid_index_in_range(x: int, y: int, w: int, h: int)
    requires
        0 <= x < w,
        0 <= y < h,
    ensures
        0 <= y * w + x < w * h,
{
    assert(0 <= y * w + x < w * h) by (nonlinear_arith)
        requires
            0 <= x < w,
            0 <= y < h,
    ;
}

} // verus!
