use vstd::prelude::*;

verus! {

/// A decoded 8-bit RGB image: rows top to bottom, three bytes per pixel.
#[derive(Clone, Debug)]
pub struct RtImage {
    pub data: Vec<u8>,
    pub image_width: u32,
    pub image_height: u32,
}

impl RtImage {
    /// Holds exactly three bytes for each of `image_width * image_height`
    /// pixels.
    pub open spec fn wf(&self) -> bool {
        self.data@.len() == 3 * (self.image_width as int) * (self.image_height as int)
    }

    /// Byte offset of the first channel of the pixel that `pixel_data(x, y)`
    /// reads: `x` clamped to the last column, and `y` clamped to the last row
    /// and counted from the bottom, so that `y == 0` reads the bottom row.
    pub open spec fn offset_spec(&self, x: u32, y: u32) -> int {
        let w = self.image_width as int;
        let h = self.image_height as int;
        let cx = if x < w { x as int } else { w - 1 };
        let cy = if y < h { y as int } else { h - 1 };
        3 * ((h - 1 - cy) * w + cx)
    }

    /// An image of `width` by `height` pixels over `data`; `None` when `data`
    /// does not hold three bytes per pixel.
    pub fn new(width: u32, height: u32, data: Vec<u8>) -> (r: Option<RtImage>)
        ensures
            r.is_some() <==> data@.len() == 3 * (width as int) * (height as int),
            r.is_some() ==> r.unwrap().wf() && r.unwrap().data@ == data@ && r.unwrap().image_width
                == width && r.unwrap().image_height == height,
    {
        let w: u128 = width as u128;
        let h: u128 = height as u128;
        assert(w * h <= 0xffff_ffffu128 * 0xffff_ffffu128) by (nonlinear_arith)
            requires
                w <= 0xffff_ffffu128,
                h <= 0xffff_ffffu128,
        ;
        let expected: u128 = 3 * (w * h);
        assert(expected == 3 * (width as int) * (height as int)) by (nonlinear_arith)
            requires
                expected == 3 * (w * h),
                w == width,
                h == height,
        ;
        if data.len() as u128 == expected {
            Some(RtImage { data, image_width: width, image_height: height })
        } else {
            None
        }
    }

    pub fn height(&self) -> (r: u32)
        ensures
            r == self.image_height,
    {
        self.image_height
    }

    pub fn width(&self) -> (r: u32)
        ensures
            r == self.image_width,
    {
        self.image_width
    }

    /// Red, green and blue bytes of pixel `(x, y)`, clamped into the image,
    /// with `y` counted from the bottom row.
    pub fn pixel_data(&self, x: u32, y: u32) -> (r: (u8, u8, u8))
        requires
            self.wf(),
            self.image_width > 0,
            self.image_height > 0,
        ensures
            r.0 == self.data@[self.offset_spec(x, y)],
            r.1 == self.data@[self.offset_spec(x, y) + 1],
            r.2 == self.data@[self.offset_spec(x, y) + 2],
    {
        let w = self.image_width;
        let h = self.image_height;
        let cx: u32 = if x < w { x } else { w - 1 };
        let cy: u32 = if y < h { y } else { h - 1 };
        let row: u32 = h - 1 - cy;
        let len = self.data.len();
        proof {
            assert(row as int * w as int + cx as int <= (h as int - 1) * w as int + (w as int - 1))
                by (nonlinear_arith)
                requires
                    row <= h - 1,
                    cx <= w - 1,
            ;
            assert((h as int - 1) * w as int + (w as int - 1) == w as int * h as int - 1)
                by (nonlinear_arith);
            assert(3 * (w as int * h as int) == 3 * (w as int) * (h as int)) by (nonlinear_arith);
            assert(3 * (w as int * h as int) == len);
        }
        let base: usize = 3 * (row as usize * w as usize + cx as usize);
        (self.data[base], self.data[base + 1], self.data[base + 2])
    }
}

} // verus!
