//! Normalized images: RGBA colors, the fixed 15x15 sprite dimension shared
//! by both encodings, the mask cut-out pass, and the format dispatcher.
use vstd::prelude::*;
use crate::error::DecodeError;
use crate::cga;
use crate::ega;

verus! {

/// Width and height of every decoded sprite.
pub const IMAGE_DIMENSION: u32 = 15;

pub const IMAGE_DIMENSION_USIZE: usize = 15;

/// An exact RGBA color; equality is component-wise.
#[derive(Clone, Copy, Debug, PartialEq, Eq, Structural)]
pub struct Color {
    pub r: u8,
    pub g: u8,
    pub b: u8,
    pub a: u8,
}

impl Color {
    /// Compact construction with full opacity.
    pub fn rgb(r: u8, g: u8, b: u8) -> (c: Color)
        ensures
            c == (Color { r, g, b, a: 0xFF }),
    {
        Color { r, g, b, a: 0xFF }
    }
}

/// The color a mask image uses to mark transparent pixels: opaque white.
pub open spec fn spec_mask_key() -> Color {
    Color { r: 0xFF, g: 0xFF, b: 0xFF, a: 0xFF }
}

/// A decoded sprite: row-major pixels, top-to-bottom, left-to-right.
pub struct Image {
    pub width: usize,
    pub height: usize,
    pub pixels: Vec<Color>,
}

impl Image {
    /// The pixel sequence covers the full rectangle.
    pub open spec fn wf(&self) -> bool {
        self.pixels@.len() == self.width * self.height
    }
}

/// The pixels of `p` after the mask pass: wherever `m` holds the key color,
/// the alpha channel drops to zero; every other pixel is untouched.
pub open spec fn spec_apply_mask(p: Seq<Color>, m: Seq<Color>) -> Seq<Color> {
    Seq::new(
        p.len(),
        |i: int|
            if m[i] == spec_mask_key() {
                Color { r: p[i].r, g: p[i].g, b: p[i].b, a: 0 }
            } else {
                p[i]
            },
    )
}

/// Masking is idempotent: applying the same mask twice yields exactly the
/// pixels one application yields (alpha already zero stays zero).
pub proof fn lemma_mask_idempotent(p: Seq<Color>, m: Seq<Color>)
    ensures
        spec_apply_mask(spec_apply_mask(p, m), m) == spec_apply_mask(p, m),
{
    assert(spec_apply_mask(spec_apply_mask(p, m), m) =~= spec_apply_mask(p, m));
}

/// For every pixel position where `mask_image` is exactly opaque white, make
/// the corresponding pixel of `image` fully transparent; leave every other
/// pixel untouched. The two images must have the same dimensions.
pub fn apply_mask(image: &mut Image, mask_image: &Image) -> (r: Result<(), DecodeError>)
    requires
        old(image).wf(),
        mask_image.wf(),
    ensures
        r is Ok <==> (old(image).width == mask_image.width && old(image).height
            == mask_image.height),
        match r {
            Ok(_) => {
                &&& final(image).width == old(image).width
                &&& final(image).height == old(image).height
                &&& final(image).pixels@ == spec_apply_mask(old(image).pixels@, mask_image.pixels@)
            },
            Err(e) => {
                &&& e == DecodeError::DimensionMismatch
                &&& *final(image) == *old(image)
            },
        },
{
    if image.width != mask_image.width || image.height != mask_image.height {
        return Err(DecodeError::DimensionMismatch);
    }
    let n = image.pixels.len();
    let mut i: usize = 0;
    while i < n
        invariant
            n == old(image).pixels@.len(),
            n == mask_image.pixels@.len(),
            i <= n,
            image.width == old(image).width,
            image.height == old(image).height,
            image.pixels@.len() == n,
            forall|j: int| 0 <= j < i ==> image.pixels@[j] == spec_apply_mask(
                old(image).pixels@,
                mask_image.pixels@,
            )[j],
            forall|j: int| i <= j < n ==> image.pixels@[j] == old(image).pixels@[j],
        decreases n - i,
    {
        let m = mask_image.pixels[i];
        if m.r == 0xFF && m.g == 0xFF && m.b == 0xFF && m.a == 0xFF {
            let p = image.pixels[i];
            image.pixels[i] = Color { r: p.r, g: p.g, b: p.b, a: 0 };
        }
        i += 1;
    }
    proof {
        assert(image.pixels@ =~= spec_apply_mask(old(image).pixels@, mask_image.pixels@));
    }
    Ok(())
}

/// Inspect the 4-byte magic header and route the whole buffer to the
/// matching sprite-sheet decoder. A buffer too short for a header is
/// malformed; a header that matches neither known format is an unrecognized
/// format, reported distinctly.
pub fn decode_spritesheet(data: &[u8]) -> (r: Result<Vec<Image>, DecodeError>)
    ensures
        r is Ok <==> (cga::is_cga_header(data@) || ega::is_ega_header(data@)),
        match r {
            Ok(imgs) => {
                &&& cga::is_cga_header(data@) ==> cga::cga_decoded(data@, imgs@)
                &&& ega::is_ega_header(data@) ==> ega::ega_decoded(data@, imgs@)
            },
            Err(e) => e == (if data@.len() < 4 {
                DecodeError::MalformedInput
            } else {
                DecodeError::UnrecognizedFormat
            }),
        },
{
    if data.len() < 4 {
        return Err(DecodeError::MalformedInput);
    }
    if data[0] == 0x0E && data[1] == 0x00 && data[2] == 0x0E && data[3] == 0x00 {
        proof {
            assert(data@.subrange(0, 4) =~= cga::spec_cga_header());
        }
        Ok(cga::decode_spritesheet(data))
    } else if data[0] == 0x1D && data[1] == 0x00 && data[2] == 0x0E && data[3] == 0x00 {
        proof {
            assert(data@.subrange(0, 4) =~= ega::spec_ega_header());
        }
        Ok(ega::decode_spritesheet(data))
    } else {
        proof {
            assert(!cga::is_cga_header(data@)) by {
                if cga::is_cga_header(data@) {
                    assert(data@.subrange(0, 4)[0] == 0x0E && data@.subrange(0, 4)[1] == 0x00
                        && data@.subrange(0, 4)[2] == 0x0E && data@.subrange(0, 4)[3] == 0x00);
                }
            }
            assert(!ega::is_ega_header(data@)) by {
                if ega::is_ega_header(data@) {
                    assert(data@.subrange(0, 4)[0] == 0x1D && data@.subrange(0, 4)[1] == 0x00
                        && data@.subrange(0, 4)[2] == 0x0E && data@.subrange(0, 4)[3] == 0x00);
                }
            }
        }
        Err(DecodeError::UnrecognizedFormat)
    }
}

} // verus!
