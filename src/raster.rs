use vstd::prelude::*;

verus! {

/// One RGBA pixel, eight bits per channel, alpha last.
pub type Pixel = [u8; 4];

/// The alpha channel of a pixel.
pub open spec fn alpha(p: Pixel) -> u8 {
    p[3]
}

/// What a raster is: its size and its pixels, row after row.
pub ghost struct RasterView {
    pub width: nat,
    pub height: nat,
    pub pixels: Seq<Pixel>,
}

impl RasterView {
    pub open spec fn wf(self) -> bool {
        self.pixels.len() == self.width * self.height
    }

    /// Every pixel of the raster is fully opaque.
    pub open spec fn opaque(self) -> bool {
        forall|i: int| 0 <= i < self.pixels.len() ==> #[trigger] alpha(self.pixels[i]) == 255
    }
}

/// A decoded image in the canonical pixel format: 8-bit RGBA, row-major.
#[derive(Debug)]
pub struct Raster {
    pub width: u32,
    pub height: u32,
    pub pixels: Vec<Pixel>,
}

impl View for Raster {
    type V = RasterView;

    open spec fn view(&self) -> RasterView {
        RasterView { width: self.width as nat, height: self.height as nat, pixels: self.pixels@ }
    }
}

impl Raster {
    pub open spec fn wf(&self) -> bool {
        self@.wf()
    }

    /// A raster of the given size where every pixel is `fill`.
    pub fn solid(width: u32, height: u32, fill: Pixel) -> (r: Option<Raster>)
        ensures
            (r is Some) == (width as nat * height as nat <= usize::MAX),
            r matches Some(img) ==> (img.wf() && img.width == width && img.height == height
                && forall|i: int| 0 <= i < img.pixels@.len() ==> #[trigger] img.pixels@[i] == fill),
    {
        let n = match (width as usize).checked_mul(height as usize) {
            Some(n) => n,
            None => return None,
        };
        let mut pixels: Vec<Pixel> = Vec::with_capacity(n);
        let mut i: usize = 0;
        while i < n
            invariant
                i <= n,
                pixels@.len() == i,
                forall|j: int| 0 <= j < i ==> #[trigger] pixels@[j] == fill,
            decreases n - i,
        {
            pixels.push(fill);
            i += 1;
        }
        Some(Raster { width, height, pixels })
    }

    /// Whether the pixel count agrees with the size.
    pub fn is_well_formed(&self) -> (r: bool)
        ensures
            r == self.wf(),
    {
        let w = self.width as usize;
        let h = self.height as usize;
        proof {
            assert(w as int * h as int == self.width as nat * self.height as nat);
        }
        let len = self.pixels.len();
        match w.checked_mul(h) {
            Some(n) => len == n,
            None => false,
        }
    }

    /// A copy of the raster, pixel for pixel.
    pub fn copy_of(&self) -> (r: Raster)
        ensures
            r@ == self@,
    {
        let mut pixels: Vec<Pixel> = Vec::with_capacity(self.pixels.len());
        let mut i: usize = 0;
        while i < self.pixels.len()
            invariant
                i <= self.pixels@.len(),
                pixels@ == self.pixels@.subrange(0, i as int),
            decreases self.pixels@.len() - i,
        {
            pixels.push(self.pixels[i]);
            i += 1;
            proof {
                assert(pixels@ =~= self.pixels@.subrange(0, i as int));
            }
        }
        proof {
            assert(pixels@ =~= self.pixels@);
        }
        Raster { width: self.width, height: self.height, pixels }
    }
}

} // verus!
