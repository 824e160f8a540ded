//! One channel of an image surface: the lighting filters read its opacity, and the
//! morphology filter works on each channel alike.

use vstd::prelude::*;

verus! {

/// The values of one channel (such as the opacity) of each pixel of a `width` × `height`
/// image, row after row.
#[derive(Debug, Clone, PartialEq, Eq)]
pub struct ImageChannel {
    pub width: u32,
    pub height: u32,
    pub values: Vec<u8>,
}

impl ImageChannel {
    /// There is one value per pixel.
    pub open spec fn wf(&self) -> bool {
        self.values@.len() == self.width * self.height
    }

    /// The value of the pixel in column `x` and row `y`.
    pub open spec fn value_at(&self, x: int, y: int) -> int {
        self.values@[y * self.width + x] as int
    }

    /// An image whose pixels all have the value `a`.
    pub fn filled(width: u32, height: u32, a: u8) -> (s: ImageChannel)
        requires
            width * height <= usize::MAX,
        ensures
            s.wf(),
            s.width == width && s.height == height,
            forall|x: int, y: int| 0 <= x < width && 0 <= y < height ==> #[trigger] s.value_at(x, y) == a,
    {
        let n: usize = (width as usize) * (height as usize);
        let mut values: Vec<u8> = Vec::new();
        let mut i: usize = 0;
        while i < n
            invariant
                i <= n,
                values@.len() == i,
                forall|k: int| 0 <= k < i ==> values@[k] == a,
            decreases n - i,
        {
            values.push(a);
            i = i + 1;
        }
        let s = ImageChannel { width, height, values };
        assert forall|x: int, y: int| 0 <= x < width && 0 <= y < height implies #[trigger] s.value_at(x, y) == a by {
            lemma_index_in_range(x, y, width as int, height as int);
        }
        s
    }

    /// The value of the pixel in column `x` and row `y`.
    pub fn get_value(&self, x: u32, y: u32) -> (a: u8)
        requires
            self.wf(),
            x < self.width,
            y < self.height,
        ensures
            a == self.value_at(x as int, y as int),
    {
        let len = self.values.len();
        proof {
            lemma_index_in_range(x as int, y as int, self.width as int, self.height as int);
            assert(y * self.width + x < len);
        }
        let row: usize = (y as usize) * (self.width as usize);
        self.values[row + (x as usize)]
    }
}

/// The position `y * w + x` of a pixel inside a `w` × `h` image lies before `w * h`.
pub proof fn lemma_index_in_range(x: int, y: int, w: int, h: int)
    requires
        0 <= x < w,
        0 <= y < h,
    ensures
        0 <= y * w + x < w * h,
{
    assert(0 <= y * w + x < w * h) by (nonlinear_arith)
        requires
            0 <= x < w,
            0 <= y < h,
    ;
}

} // verus!
