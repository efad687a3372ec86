//! Decoded raster images.

use crate::layout::ImageId;
use vstd::prelude::*;

verus! {

/// The file format that an image was decoded from.
#[derive(Clone, Copy, PartialEq, Eq, Debug, Structural)]
pub enum ImageFormat {
    Png,
    Jpeg,
    /// Any other format.
    Other,
}

/// What the samples of one pixel are: eight bits each, in this order.
#[derive(Clone, Copy, PartialEq, Eq, Debug, Structural)]
pub enum ColorLayout {
    /// Luminance.
    Luma8,
    /// Luminance and alpha.
    LumaA8,
    /// Red, green and blue.
    Rgb8,
    /// Red, green, blue and alpha.
    Rgba8,
}

impl ColorLayout {
    /// The number of samples of one pixel.
    pub open spec fn spec_channels(self) -> int {
        match self {
            ColorLayout::Luma8 => 1,
            ColorLayout::LumaA8 => 2,
            ColorLayout::Rgb8 => 3,
            ColorLayout::Rgba8 => 4,
        }
    }

    /// Whether a pixel has an alpha sample.
    pub open spec fn spec_has_alpha(self) -> bool {
        self is LumaA8 || self is Rgba8
    }

    /// The number of samples of one pixel.
    pub fn channels(self) -> (n: usize)
        ensures
            n == self.spec_channels(),
    {
        match self {
            ColorLayout::Luma8 => 1,
            ColorLayout::LumaA8 => 2,
            ColorLayout::Rgb8 => 3,
            ColorLayout::Rgba8 => 4,
        }
    }

    /// Whether a pixel has an alpha sample.
    #[verifier::when_used_as_spec(spec_has_alpha)]
    pub fn has_alpha(self) -> (b: bool)
        ensures
            b == self.spec_has_alpha(),
    {
        match self {
            ColorLayout::LumaA8 => true,
            ColorLayout::Rgba8 => true,
            _ => false,
        }
    }
}

/// A decoded image: its pixels row by row from the top, each with the samples
/// of its layout, and the file that it was decoded from.
#[derive(Clone, Debug)]
pub struct Image {
    pub format: ImageFormat,
    pub layout: ColorLayout,
    pub width: u32,
    pub height: u32,
    /// The decoded samples.
    pub samples: Vec<u8>,
    /// The bytes of the file that the image was decoded from.
    pub source: Vec<u8>,
}

impl Image {
    /// The buffer holds the samples of `width * height` pixels and nothing else.
    pub open spec fn wf(&self) -> bool {
        self.samples@.len() == self.width * self.height * self.layout.spec_channels()
    }

    /// The number of pixels in the buffer.
    pub open spec fn pixels(&self) -> int {
        match self.layout {
            ColorLayout::Luma8 => self.samples@.len() as int,
            ColorLayout::LumaA8 => self.samples@.len() as int / 2,
            ColorLayout::Rgb8 => self.samples@.len() as int / 3,
            ColorLayout::Rgba8 => self.samples@.len() as int / 4,
        }
    }

    /// The sample at place `k` of the image without its alpha channel, in the
    /// order red, green, blue: a luminance stands for all three.
    pub open spec fn rgb_at(&self, k: int) -> u8 {
        let pixel = k / 3;
        let channel = k % 3;
        match self.layout {
            ColorLayout::Luma8 => self.samples@[pixel],
            ColorLayout::LumaA8 => self.samples@[2 * pixel],
            ColorLayout::Rgb8 => self.samples@[3 * pixel + channel],
            ColorLayout::Rgba8 => self.samples@[4 * pixel + channel],
        }
    }

    /// The image without its alpha channel: three samples for each pixel.
    pub open spec fn rgb(&self) -> Seq<u8> {
        Seq::new((3 * self.pixels()) as nat, |k: int| self.rgb_at(k))
    }

    /// The alpha sample of the pixel at place `pixel`; fully opaque where the
    /// layout has no alpha.
    pub open spec fn alpha_at(&self, pixel: int) -> u8 {
        match self.layout {
            ColorLayout::LumaA8 => self.samples@[2 * pixel + 1],
            ColorLayout::Rgba8 => self.samples@[4 * pixel + 3],
            _ => 255,
        }
    }

    /// The alpha channel: one sample for each pixel.
    pub open spec fn alpha(&self) -> Seq<u8> {
        Seq::new(self.pixels() as nat, |pixel: int| self.alpha_at(pixel))
    }

    /// Whether the buffer fits the dimensions and the layout.
    pub fn is_well_formed(&self) -> (b: bool)
        ensures
            b == self.wf(),
    {
        let w: u128 = self.width as u128;
        let h: u128 = self.height as u128;
        let c: u128 = self.layout.channels() as u128;
        assert(w * h <= 0xffff_ffff * 0xffff_ffff) by (nonlinear_arith)
            requires
                w <= 0xffff_ffff,
                h <= 0xffff_ffff,
        ;
        let area: u128 = w * h;
        assert(area * c <= 0xffff_ffff * 0xffff_ffff * 4) by (nonlinear_arith)
            requires
                area <= 0xffff_ffff * 0xffff_ffff,
                c <= 4,
        ;
        area * c == self.samples.len() as u128
    }

    /// The number of pixels in the buffer.
    pub fn pixel_count(&self) -> (n: usize)
        ensures
            n == self.pixels(),
    {
        match self.layout {
            ColorLayout::Luma8 => self.samples.len(),
            ColorLayout::LumaA8 => self.samples.len() / 2,
            ColorLayout::Rgb8 => self.samples.len() / 3,
            ColorLayout::Rgba8 => self.samples.len() / 4,
        }
    }

    /// The samples of the image without its alpha channel.
    pub fn rgb_samples(&self) -> (r: Vec<u8>)
        ensures
            r@ == self.rgb(),
    {
        let pixels: usize = self.pixel_count();
        let total: usize = self.samples.len();
        let mut out: Vec<u8> = Vec::new();
        let mut pixel: usize = 0;
        while pixel < pixels
            invariant
                pixel <= pixels,
                pixels == self.pixels(),
                total == self.samples@.len(),
                out@.len() == 3 * pixel,
                forall|k: int| 0 <= k < out@.len() ==> out@[k] == self.rgb_at(k),
            decreases pixels - pixel,
        {
            match self.layout {
                ColorLayout::Luma8 => {
                    out.push(self.samples[pixel]);
                    out.push(self.samples[pixel]);
                    out.push(self.samples[pixel]);
                },
                ColorLayout::LumaA8 => {
                    out.push(self.samples[2 * pixel]);
                    out.push(self.samples[2 * pixel]);
                    out.push(self.samples[2 * pixel]);
                },
                ColorLayout::Rgb8 => {
                    out.push(self.samples[3 * pixel]);
                    out.push(self.samples[3 * pixel + 1]);
                    out.push(self.samples[3 * pixel + 2]);
                },
                ColorLayout::Rgba8 => {
                    out.push(self.samples[4 * pixel]);
                    out.push(self.samples[4 * pixel + 1]);
                    out.push(self.samples[4 * pixel + 2]);
                },
            }
            pixel += 1;
        }
        assert(out@ =~= self.rgb());
        out
    }

    /// The samples of the alpha channel.
    pub fn alpha_samples(&self) -> (r: Vec<u8>)
        ensures
            r@ == self.alpha(),
    {
        let pixels: usize = self.pixel_count();
        let total: usize = self.samples.len();
        let mut out: Vec<u8> = Vec::new();
        let mut pixel: usize = 0;
        while pixel < pixels
            invariant
                pixel <= pixels,
                pixels == self.pixels(),
                total == self.samples@.len(),
                out@.len() == pixel,
                forall|k: int| 0 <= k < out@.len() ==> out@[k] == self.alpha_at(k),
            decreases pixels - pixel,
        {
            match self.layout {
                ColorLayout::LumaA8 => {
                    out.push(self.samples[2 * pixel + 1]);
                },
                ColorLayout::Rgba8 => {
                    out.push(self.samples[4 * pixel + 3]);
                },
                _ => {
                    out.push(255);
                },
            }
            pixel += 1;
        }
        assert(out@ =~= self.alpha());
        out
    }
}

/// The images of a document, by the number in their `ImageId`.
#[derive(Clone, Debug)]
pub struct ImageStore {
    pub images: Vec<Image>,
}

impl ImageStore {
    /// Whether the store has an image for `id`.
    pub open spec fn has(&self, id: ImageId) -> bool {
        id.0 < self.images@.len()
    }

    /// The image for `id`.
    pub open spec fn image(&self, id: ImageId) -> Image
        recommends
            self.has(id),
    {
        self.images@[id.0 as int]
    }

    /// Whether the store has an image for `id`.
    pub fn contains(&self, id: ImageId) -> (b: bool)
        ensures
            b == self.has(id),
    {
        (id.0 as usize) < self.images.len()
    }

    /// The image for `id`.
    pub fn get(&self, id: ImageId) -> (image: &Image)
        requires
            self.has(id),
        ensures
            *image == self.image(id),
    {
        &self.images[id.0 as usize]
    }
}

} // verus!
