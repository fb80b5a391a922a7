//! An RGBA pixel grid held as plain bytes.
use vstd::prelude::*;

verus! {

/// A grid of `width` x `height` pixels, each four bytes (red, green, blue,
/// alpha), stored row by row.
pub struct Image {
    pub width: u32,
    pub height: u32,
    pub data: Vec<u8>,
}

/// Number of bytes that hold a `w` x `h` grid.
pub open spec fn byte_len(w: int, h: int) -> int {
    4 * (w * h)
}

/// Offset of channel `c` of pixel `(x, y)` in a grid of width `w`.
pub open spec fn byte_index(w: int, x: int, y: int, c: int) -> int {
    4 * (y * w + x) + c
}

/// Every channel of a pixel inside the grid lies inside its buffer.
pub proof fn lemma_byte_index_bounds(w: int, h: int, x: int, y: int, c: int)
    requires
        0 <= x < w,
        0 <= y < h,
        0 <= c < 4,
    ensures
        0 <= byte_index(w, x, y, c) < byte_len(w, h),
{
    assert(0 <= y * w + x < w * h) by (nonlinear_arith)
        requires
            0 <= x < w,
            0 <= y < h,
    ;
}

impl Image {
    /// The byte buffer holds exactly the grid's pixels.
    pub open spec fn wf(&self) -> bool {
        self.data@.len() == byte_len(self.width as int, self.height as int)
    }

    /// Channel `c` of pixel `(x, y)`.
    pub open spec fn channel(&self, x: int, y: int, c: int) -> u8 {
        self.data@[byte_index(self.width as int, x, y, c)]
    }

    /// The grid holds no pixel.
    pub open spec fn is_empty_spec(&self) -> bool {
        self.width == 0 || self.height == 0
    }

    /// A grid of the given size whose every byte is zero (transparent black).
    pub fn blank(width: u32, height: u32) -> (r: Image)
        requires
            byte_len(width as int, height as int) <= usize::MAX,
        ensures
            r.width == width,
            r.height == height,
            r.wf(),
            forall|i: int| 0 <= i < r.data@.len() ==> r.data@[i] == 0,
    {
        assert((width as int) * (height as int) <= usize::MAX) by (nonlinear_arith)
            requires
                4 * ((width as int) * (height as int)) <= usize::MAX,
        ;
        let wh: usize = (width as usize) * (height as usize);
        let n: usize = wh * 4;
        let mut data: Vec<u8> = Vec::with_capacity(n);
        let mut i: usize = 0;
        while i < n
            invariant
                i <= n,
                data@.len() == i,
                forall|j: int| 0 <= j < i ==> data@[j] == 0,
            decreases n - i,
        {
            data.push(0);
            i = i + 1;
        }
        Image { width, height, data }
    }

    /// Wraps `data` as a `width` x `height` grid; `None` unless its length is
    /// exactly four bytes per pixel.
    pub fn from_raw(width: u32, height: u32, data: Vec<u8>) -> (r: Option<Image>)
        ensures
            r.is_some() <==> data@.len() == byte_len(width as int, height as int),
            r matches Some(img) ==> img.width == width && img.height == height && img.data@
                == data@,
    {
        assert((width as int) * (height as int) <= u64::MAX) by (nonlinear_arith)
            requires
                width <= u32::MAX,
                height <= u32::MAX,
        ;
        let n: u64 = (width as u64) * (height as u64);
        let len: usize = data.len();
        assert(byte_len(width as int, height as int) == 4 * (n as int)) by (nonlinear_arith)
            requires
                n == (width as int) * (height as int),
        ;
        if n <= (usize::MAX as u64) / 4 && len == (n as usize) * 4 {
            Some(Image { width, height, data })
        } else {
            None
        }
    }

    /// Width in pixels.
    pub fn width(&self) -> (r: u32)
        ensures
            r == self.width,
    {
        self.width
    }

    /// Height in pixels.
    pub fn height(&self) -> (r: u32)
        ensures
            r == self.height,
    {
        self.height
    }

    /// True when the grid holds no pixel.
    pub fn is_empty(&self) -> (r: bool)
        ensures
            r == self.is_empty_spec(),
    {
        self.width == 0 || self.height == 0
    }

    /// The four channels of pixel `(x, y)`.
    pub fn pixel(&self, x: u32, y: u32) -> (r: [u8; 4])
        requires
            self.wf(),
            x < self.width,
            y < self.height,
        ensures
            r@ == seq![
                self.channel(x as int, y as int, 0),
                self.channel(x as int, y as int, 1),
                self.channel(x as int, y as int, 2),
                self.channel(x as int, y as int, 3),
            ],
    {
        proof {
            lemma_byte_index_bounds(self.width as int, self.height as int, x as int, y as int, 3);
            lemma_byte_index_bounds(self.width as int, self.height as int, x as int, y as int, 0);
        }
        let len: usize = self.data.len();
        assert((y as int) * (self.width as int) <= (y as int) * (self.width as int) + (x as int));
        let row: usize = (y as usize) * (self.width as usize);
        let base: usize = 4 * (row + (x as usize));
        [self.data[base], self.data[base + 1], self.data[base + 2], self.data[base + 3]]
    }
}

} // verus!
