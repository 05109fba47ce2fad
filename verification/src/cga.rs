//! Decoder for the 4-color packed-pixel sprite-sheet encoding. A sheet is a
//! run of 256-byte aligned blocks; in each block, bytes 4..64 hold 15 rows of
//! 4 bytes, every byte carrying four 2-bit palette indices most significant
//! crumb first, and the 16th crumb of each row is discarded padding.
use vstd::prelude::*;
use vstd::arithmetic::div_mod::{lemma_fundamental_div_mod, lemma_fundamental_div_mod_converse};
use crate::crumb::{crumb, spec_crumb};
use crate::img::{Color, Image, IMAGE_DIMENSION_USIZE};

verus! {

/// Magic header that opens every block of a 4-color sheet.
pub open spec fn spec_cga_header() -> Seq<u8> {
    seq![0x0Eu8, 0x00u8, 0x0Eu8, 0x00u8]
}

/// Whether the buffer opens with the 4-color magic header.
pub open spec fn is_cga_header(data: Seq<u8>) -> bool {
    data.len() >= 4 && data.subrange(0, 4) == spec_cga_header()
}

/// The classic 4-color display-adapter palette: black, cyan, magenta, white.
pub open spec fn spec_cga_palette(i: int) -> Color {
    if i == 0 {
        Color { r: 0x00, g: 0x00, b: 0x00, a: 0xFF }
    } else if i == 1 {
        Color { r: 0x00, g: 0xFF, b: 0xFF, a: 0xFF }
    } else if i == 2 {
        Color { r: 0xFF, g: 0x00, b: 0xFF, a: 0xFF }
    } else {
        Color { r: 0xFF, g: 0xFF, b: 0xFF, a: 0xFF }
    }
}

/// Look a 2-bit pixel index up in the 4-color palette.
pub fn cga_palette(i: u8) -> (c: Color)
    requires
        i < 4,
    ensures
        c == spec_cga_palette(i as int),
{
    match i {
        0 => Color { r: 0x00, g: 0x00, b: 0x00, a: 0xFF },
        1 => Color { r: 0x00, g: 0xFF, b: 0xFF, a: 0xFF },
        2 => Color { r: 0xFF, g: 0x00, b: 0xFF, a: 0xFF },
        _ => Color { r: 0xFF, g: 0xFF, b: 0xFF, a: 0xFF },
    }
}

/// The 2-bit palette index of pixel `p` (row-major in a 15x15 image) of the
/// `img`th block of `data`: byte 4 + row * 4 + column / 4 of the block, crumb
/// 3 - column % 4 (most significant crumb first).
pub open spec fn spec_cga_pixel_index(data: Seq<u8>, img: int, p: int) -> u8 {
    spec_crumb(data[img * 256 + 4 + (p / 15) * 4 + (p % 15) / 4], (3 - (p % 15) % 4) as u8)
}

/// The color of pixel `p` of the `img`th decoded image.
pub open spec fn spec_cga_pixel(data: Seq<u8>, img: int, p: int) -> Color {
    spec_cga_palette(spec_cga_pixel_index(data, img, p) as int)
}

/// `imgs` is exactly the decode of `data` under the 4-color encoding: one
/// 15x15 image per whole 256-byte block, pixel for pixel.
pub open spec fn cga_decoded(data: Seq<u8>, imgs: Seq<Image>) -> bool {
    &&& imgs.len() == data.len() / 256
    &&& forall|i: int|
        0 <= i < imgs.len() ==> {
            &&& (#[trigger] imgs[i]).width == 15
            &&& imgs[i].height == 15
            &&& imgs[i].pixels@.len() == 225
            &&& forall|p: int|
                0 <= p < 225 ==> imgs[i].pixels@[p] == spec_cga_pixel(data, i, p)
        }
}

/// Decode one block into its 15x15 image.
fn decode_block(data: &[u8], img_i: usize) -> (r: Image)
    requires
        (img_i + 1) * 256 <= data@.len(),
        data@.len() <= usize::MAX,
    ensures
        r.width == 15,
        r.height == 15,
        r.pixels@.len() == 225,
        forall|p: int| 0 <= p < 225 ==> r.pixels@[p] == spec_cga_pixel(data@, img_i as int, p),
{
    proof {
        assert((img_i + 1) * 256 == img_i * 256 + 256) by (nonlinear_arith);
    }
    let base = img_i * 256;
    let mut pixels: Vec<Color> = Vec::new();
    let mut y: usize = 0;
    while y < 15
        invariant
            (img_i + 1) * 256 <= data@.len(),
            data@.len() <= usize::MAX,
            base == img_i * 256,
            y <= 15,
            pixels@.len() == y * 15,
            forall|p: int| 0 <= p < y * 15 ==> pixels@[p] == spec_cga_pixel(
                data@,
                img_i as int,
                p,
            ),
        decreases 15 - y,
    {
        let mut x: usize = 0;
        while x < 15
            invariant
                (img_i + 1) * 256 <= data@.len(),
                base == img_i * 256,
                y < 15,
                x <= 15,
                pixels@.len() == y * 15 + x,
                forall|p: int| 0 <= p < y * 15 + x ==> pixels@[p] == spec_cga_pixel(
                    data@,
                    img_i as int,
                    p,
                ),
            decreases 15 - x,
        {
            let b = data[base + 4 + y * 4 + x / 4];
            let part = (3 - (x % 4)) as u8;
            let ci = crumb(&b, part);
            pixels.push(cga_palette(ci));
            proof {
                let p = y * 15 + x;
                lemma_fundamental_div_mod_converse(p as int, 15, y as int, x as int);
                assert(pixels@[p as int] == spec_cga_pixel(data@, img_i as int, p as int));
            }
            x += 1;
        }
        y += 1;
    }
    Image { width: IMAGE_DIMENSION_USIZE, height: IMAGE_DIMENSION_USIZE, pixels }
}

/// Decode a whole 4-color sprite sheet: one image per whole 256-byte block.
/// Trailing bytes short of a full block are ignored, so decoding stops
/// gracefully at the end of the last complete block.
pub fn decode_spritesheet(data: &[u8]) -> (r: Vec<Image>)
    ensures
        cga_decoded(data@, r@),
{
    let count = data.len() / 256;
    proof {
        lemma_fundamental_div_mod(data@.len() as int, 256);
    }
    let mut imgs: Vec<Image> = Vec::new();
    let mut i: usize = 0;
    while i < count
        invariant
            count == data@.len() / 256,
            count * 256 <= data@.len(),
            data@.len() <= usize::MAX,
            i <= count,
            imgs@.len() == i,
            forall|k: int|
                0 <= k < i ==> {
                    &&& (#[trigger] imgs@[k]).width == 15
                    &&& imgs@[k].height == 15
                    &&& imgs@[k].pixels@.len() == 225
                    &&& forall|p: int|
                        0 <= p < 225 ==> imgs@[k].pixels@[p] == spec_cga_pixel(data@, k, p)
                },
        decreases count - i,
    {
        let image = decode_block(data, i);
        imgs.push(image);
        i += 1;
    }
    imgs
}

} // verus!
