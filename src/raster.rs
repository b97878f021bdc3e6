//! Render settings and the layout of the output image.
//!
//! The image is handed to an encoder as a flat sequence of RGB byte
//! triples, one per pixel, in row-major order with the top-left pixel
//! first. Pixels are sampled with `y` counted from the bottom of the image
//! (the camera's vertical fraction grows upwards), so the buffer's first
//! row holds the samples of the highest `y`.

use vstd::prelude::*;
use vstd::arithmetic::div_mod::{
    lemma_fundamental_div_mod,
    lemma_fundamental_div_mod_converse,
    lemma_multiply_divide_lt,
};
use vstd::arithmetic::mul::lemma_mul_left_inequality;

verus! {

/// Whether an image of `width` by `height` pixels, each the average of
/// `samples` rays, can be rendered: all three are positive and the packed
/// image fits in memory.
pub open spec fn admissible(width: u32, height: u32, samples: u32) -> bool {
    &&& width > 0
    &&& height > 0
    &&& samples > 0
    &&& 3 * width * height <= usize::MAX
}

/// The sample coordinates `(x, y)` of the pixel stored at position `slot`
/// of an image `width` pixels wide and `height` high.
pub open spec fn pixel_of_slot(width: int, height: int, slot: int) -> (int, int) {
    (slot % width, height - 1 - slot / width)
}

/// The position in the image of the pixel with sample coordinates `(x, y)`.
pub open spec fn slot_of_pixel(width: int, height: int, x: int, y: int) -> int {
    (height - 1 - y) * width + x
}

/// Every pixel of the image has a position, inside the image, from which its
/// coordinates are read back.
pub proof fn lemma_pixel_round_trip(width: int, height: int, x: int, y: int)
    requires
        0 <= x < width,
        0 <= y < height,
    ensures
        0 <= slot_of_pixel(width, height, x, y) < width * height,
        pixel_of_slot(width, height, slot_of_pixel(width, height, x, y)) == (x, y),
{
    let row = height - 1 - y;
    lemma_mul_left_inequality(width, row, height - 1);
    assert(width * (height - 1) + width == width * height) by (nonlinear_arith);
    assert(row * width == width * row) by (nonlinear_arith);
    lemma_fundamental_div_mod_converse(row * width + x, width, row, x);
}

/// Every position of the image holds a pixel inside the image, whose
/// position is that one.
pub proof fn lemma_slot_round_trip(width: int, height: int, slot: int)
    requires
        width > 0,
        height > 0,
        0 <= slot < width * height,
    ensures
        0 <= pixel_of_slot(width, height, slot).0 < width,
        0 <= pixel_of_slot(width, height, slot).1 < height,
        slot_of_pixel(
            width,
            height,
            pixel_of_slot(width, height, slot).0,
            pixel_of_slot(width, height, slot).1,
        ) == slot,
{
    lemma_fundamental_div_mod(slot, width);
    lemma_multiply_divide_lt(slot, width, height);
    assert(0 <= slot / width) by (nonlinear_arith)
        requires
            0 <= slot,
            width > 0,
    ;
    assert(width * (slot / width) == (slot / width) * width) by (nonlinear_arith);
}

/// A pixel of the output image: one byte per color channel.
#[derive(Clone, Copy, Debug, PartialEq, Eq, Structural)]
pub struct Rgb8 {
    pub r: u8,
    pub g: u8,
    pub b: u8,
}

/// Whether `bytes` holds the channels of `pixels`, three bytes per pixel in
/// the order red, green, blue.
pub open spec fn is_packing_of(bytes: Seq<u8>, pixels: Seq<Rgb8>) -> bool {
    &&& bytes.len() == 3 * pixels.len()
    &&& forall|i: int|
        0 <= i < pixels.len() ==> {
            &&& bytes[3 * i] == #[trigger] pixels[i].r
            &&& bytes[3 * i + 1] == pixels[i].g
            &&& bytes[3 * i + 2] == pixels[i].b
        }
}

/// The integer settings of a render: image size and rays per pixel.
///
/// The recursion-depth cap is not a setting; it is fixed by
/// `path::MAX_DEPTH`.
pub struct RenderSettings {
    width: u32,
    height: u32,
    samples: u32,
}

impl RenderSettings {
    #[verifier::type_invariant]
    spec fn inv(self) -> bool {
        admissible(self.width, self.height, self.samples)
    }

    /// Image width in pixels.
    pub closed spec fn spec_width(&self) -> u32 {
        self.width
    }

    /// Image height in pixels.
    pub closed spec fn spec_height(&self) -> u32 {
        self.height
    }

    /// Rays averaged per pixel.
    pub closed spec fn spec_samples(&self) -> u32 {
        self.samples
    }

    /// Settings for an image of `width` by `height` pixels with `samples`
    /// rays per pixel; `None` unless these are admissible.
    pub fn new(width: u32, height: u32, samples: u32) -> (r: Option<RenderSettings>)
        ensures
            r is Some <==> admissible(width, height, samples),
            r matches Some(s) ==> s.width() == width && s.height() == height && s.samples()
                == samples,
    {
        if width == 0 || height == 0 || samples == 0 {
            return None;
        }
        proof {
            assert(3 * width * height <= 3 * 0xffff_ffffu128 * 0xffff_ffffu128) by (nonlinear_arith)
                requires
                    width <= 0xffff_ffffu128,
                    height <= 0xffff_ffffu128,
            ;
        }
        let bytes: u128 = 3 * (width as u128) * (height as u128);
        if bytes > usize::MAX as u128 {
            return None;
        }
        Some(RenderSettings { width, height, samples })
    }

    /// Image width in pixels.
    #[verifier::when_used_as_spec(spec_width)]
    pub fn width(&self) -> (r: u32)
        ensures
            r == self.width(),
            admissible(r, self.height(), self.samples()),
    {
        proof {
            use_type_invariant(self);
        }
        self.width
    }

    /// Image height in pixels.
    #[verifier::when_used_as_spec(spec_height)]
    pub fn height(&self) -> (r: u32)
        ensures
            r == self.height(),
            admissible(self.width(), r, self.samples()),
    {
        proof {
            use_type_invariant(self);
        }
        self.height
    }

    /// Rays averaged per pixel.
    #[verifier::when_used_as_spec(spec_samples)]
    pub fn samples(&self) -> (r: u32)
        ensures
            r == self.samples(),
            admissible(self.width(), self.height(), r),
    {
        proof {
            use_type_invariant(self);
        }
        self.samples
    }

    /// Number of pixels in the image.
    pub fn pixel_count(&self) -> (r: usize)
        ensures
            r == self.width() * self.height(),
    {
        proof {
            use_type_invariant(self);
            assert(self.width * self.height <= 3 * self.width * self.height) by (nonlinear_arith);
        }
        (self.width as usize) * (self.height as usize)
    }

    /// Number of bytes in the packed image: three per pixel.
    pub fn buffer_len(&self) -> (r: usize)
        ensures
            r == 3 * self.width() * self.height(),
    {
        proof {
            use_type_invariant(self);
            assert(3 * self.width <= 3 * self.width * self.height) by (nonlinear_arith)
                requires
                    self.height > 0,
            ;
        }
        3 * (self.width as usize) * (self.height as usize)
    }

    /// The sample coordinates of the pixel stored at position `slot` of the
    /// image: the column, and the row counted from the bottom.
    pub fn pixel_at(&self, slot: usize) -> (r: (u32, u32))
        requires
            slot < self.width() * self.height(),
        ensures
            (r.0 as int, r.1 as int) == pixel_of_slot(
                self.width() as int,
                self.height() as int,
                slot as int,
            ),
    {
        proof {
            use_type_invariant(self);
            lemma_slot_round_trip(self.width as int, self.height as int, slot as int);
        }
        let width = self.width as usize;
        let x = (slot % width) as u32;
        let row = (slot / width) as u32;
        (x, self.height - 1 - row)
    }

    /// The position in the image of the byte triple of the pixel with sample
    /// coordinates `(x, y)`: its red byte, followed by green and blue.
    pub fn byte_offset(&self, x: u32, y: u32) -> (r: usize)
        requires
            x < self.width(),
            y < self.height(),
        ensures
            r == 3 * slot_of_pixel(self.width() as int, self.height() as int, x as int, y as int),
    {
        proof {
            use_type_invariant(self);
            lemma_pixel_round_trip(self.width as int, self.height as int, x as int, y as int);
            assert(3 * slot_of_pixel(self.width as int, self.height as int, x as int, y as int)
                < 3 * self.width * self.height) by (nonlinear_arith)
                requires
                    slot_of_pixel(self.width as int, self.height as int, x as int, y as int)
                        < self.width * self.height,
            ;
        }
        let row = (self.height - 1 - y) as usize;
        3 * (row * (self.width as usize) + x as usize)
    }

    /// Packs the pixels of the image, given in the order of their positions,
    /// into the byte buffer that an encoder takes; `None` when their number
    /// is not the image's pixel count.
    pub fn pack_image(&self, pixels: &Vec<Rgb8>) -> (r: Option<Vec<u8>>)
        ensures
            r is Some <==> pixels@.len() == self.width() * self.height(),
            r matches Some(bytes) ==> is_packing_of(bytes@, pixels@),
    {
        proof {
            use_type_invariant(self);
        }
        if pixels.len() != self.pixel_count() {
            return None;
        }
        proof {
            assert(3 * (self.width * self.height) == 3 * self.width * self.height)
                by (nonlinear_arith);
        }
        let mut bytes: Vec<u8> = Vec::with_capacity(self.buffer_len());
        let mut i: usize = 0;
        while i < pixels.len()
            invariant
                i <= pixels@.len(),
                3 * pixels@.len() <= usize::MAX,
                bytes@.len() == 3 * i,
                forall|k: int|
                    0 <= k < i ==> {
                        &&& bytes@[3 * k] == #[trigger] pixels@[k].r
                        &&& bytes@[3 * k + 1] == pixels@[k].g
                        &&& bytes@[3 * k + 2] == pixels@[k].b
                    },
            decreases pixels@.len() - i,
        {
            let p = pixels[i];
            bytes.push(p.r);
            bytes.push(p.g);
            bytes.push(p.b);
            i = i + 1;
        }
        assert(is_packing_of(bytes@, pixels@));
        Some(bytes)
    }
}

} // verus!
