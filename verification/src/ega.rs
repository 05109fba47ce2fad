//! Decoder for the 16-color planar sprite-sheet encoding. Blocks are 256
//! bytes; bytes 4..244 hold 15 rows of 16 bytes. Each row packs four one-bit
//! channel planes side by side, 16 crumbs to the plane; any nonzero crumb
//! counts as a set bit, the 16th crumb of each plane is discarded padding,
//! and the four channel bits combine most significant channel first into a
//! 4-bit palette index.
use vstd::prelude::*;
use vstd::arithmetic::div_mod::{lemma_fundamental_div_mod, lemma_fundamental_div_mod_converse};
use crate::crumb::{crumb, spec_crumb};
use crate::img::{Color, Image, IMAGE_DIMENSION_USIZE};

verus! {

/// Magic header that opens every block of a 16-color sheet.
pub open spec fn spec_ega_header() -> Seq<u8> {
    seq![0x1Du8, 0x00u8, 0x0Eu8, 0x00u8]
}

/// Whether the buffer opens with the 16-color magic header.
pub open spec fn is_ega_header(data: Seq<u8>) -> bool {
    data.len() >= 4 && data.subrange(0, 4) == spec_ega_header()
}

/// The historical 16-color display-adapter palette.
pub open spec fn spec_ega_palette(i: int) -> Color {
    if i == 0 {
        Color { r: 0x00, g: 0x00, b: 0x00, a: 0xFF }
    } else if i == 1 {
        Color { r: 0x00, g: 0x00, b: 0xAA, a: 0xFF }
    } else if i == 2 {
        Color { r: 0x00, g: 0xAA, b: 0x00, a: 0xFF }
    } else if i == 3 {
        Color { r: 0x00, g: 0xAA, b: 0xAA, a: 0xFF }
    } else if i == 4 {
        Color { r: 0xAA, g: 0x00, b: 0x00, a: 0xFF }
    } else if i == 5 {
        Color { r: 0xAA, g: 0x00, b: 0xAA, a: 0xFF }
    } else if i == 6 {
        Color { r: 0xAA, g: 0x55, b: 0x00, a: 0xFF }
    } else if i == 7 {
        Color { r: 0xAA, g: 0xAA, b: 0xAA, a: 0xFF }
    } else if i == 8 {
        Color { r: 0x55, g: 0x55, b: 0x55, a: 0xFF }
    } else if i == 9 {
        Color { r: 0x55, g: 0x55, b: 0xFF, a: 0xFF }
    } else if i == 10 {
        Color { r: 0x55, g: 0xFF, b: 0x55, a: 0xFF }
    } else if i == 11 {
        Color { r: 0x55, g: 0xFF, b: 0xFF, a: 0xFF }
    } else if i == 12 {
        Color { r: 0xFF, g: 0x55, b: 0x55, a: 0xFF }
    } else if i == 13 {
        Color { r: 0xFF, g: 0x55, b: 0xFF, a: 0xFF }
    } else if i == 14 {
        Color { r: 0xFF, g: 0xFF, b: 0x55, a: 0xFF }
    } else {
        Color { r: 0xFF, g: 0xFF, b: 0xFF, a: 0xFF }
    }
}

/// Look a 4-bit pixel index up in the 16-color palette.
pub fn ega_palette(i: u8) -> (c: Color)
    requires
        i < 16,
    ensures
        c == spec_ega_palette(i as int),
{
    match i {
        0 => Color { r: 0x00, g: 0x00, b: 0x00, a: 0xFF },
        1 => Color { r: 0x00, g: 0x00, b: 0xAA, a: 0xFF },
        2 => Color { r: 0x00, g: 0xAA, b: 0x00, a: 0xFF },
        3 => Color { r: 0x00, g: 0xAA, b: 0xAA, a: 0xFF },
        4 => Color { r: 0xAA, g: 0x00, b: 0x00, a: 0xFF },
        5 => Color { r: 0xAA, g: 0x00, b: 0xAA, a: 0xFF },
        6 => Color { r: 0xAA, g: 0x55, b: 0x00, a: 0xFF },
        7 => Color { r: 0xAA, g: 0xAA, b: 0xAA, a: 0xFF },
        8 => Color { r: 0x55, g: 0x55, b: 0x55, a: 0xFF },
        9 => Color { r: 0x55, g: 0x55, b: 0xFF, a: 0xFF },
        10 => Color { r: 0x55, g: 0xFF, b: 0x55, a: 0xFF },
        11 => Color { r: 0x55, g: 0xFF, b: 0xFF, a: 0xFF },
        12 => Color { r: 0xFF, g: 0x55, b: 0x55, a: 0xFF },
        13 => Color { r: 0xFF, g: 0x55, b: 0xFF, a: 0xFF },
        14 => Color { r: 0xFF, g: 0xFF, b: 0x55, a: 0xFF },
        _ => Color { r: 0xFF, g: 0xFF, b: 0xFF, a: 0xFF },
    }
}

/// The one-bit value channel `ch` contributes to pixel `p` (row-major) of the
/// `img`th block: the crumb at byte 4 + row * 16 + ch * 4 + column / 4, crumb
/// 3 - column % 4, collapsed to a single bit (any nonzero crumb counts as 1).
pub open spec fn spec_ega_bit(data: Seq<u8>, img: int, ch: int, p: int) -> u8 {
    if spec_crumb(
        data[img * 256 + 4 + (p / 15) * 16 + ch * 4 + (p % 15) / 4],
        (3 - (p % 15) % 4) as u8,
    ) != 0 {
        1u8
    } else {
        0u8
    }
}

/// The 4-bit palette index of pixel `p`: the four channel bits combined most
/// significant channel first.
pub open spec fn spec_ega_pixel_index(data: Seq<u8>, img: int, p: int) -> u8 {
    (8 * spec_ega_bit(data, img, 0, p) + 4 * spec_ega_bit(data, img, 1, p) + 2 * spec_ega_bit(
        data,
        img,
        2,
        p,
    ) + spec_ega_bit(data, img, 3, p)) as u8
}

/// The color of pixel `p` of the `img`th decoded image.
pub open spec fn spec_ega_pixel(data: Seq<u8>, img: int, p: int) -> Color {
    spec_ega_palette(spec_ega_pixel_index(data, img, p) as int)
}

/// `imgs` is exactly the decode of `data` under the 16-color encoding: one
/// 15x15 image per whole 256-byte block, pixel for pixel.
pub open spec fn ega_decoded(data: Seq<u8>, imgs: Seq<Image>) -> bool {
    &&& imgs.len() == data.len() / 256
    &&& forall|i: int|
        0 <= i < imgs.len() ==> {
            &&& (#[trigger] imgs[i]).width == 15
            &&& imgs[i].height == 15
            &&& imgs[i].pixels@.len() == 225
            &&& forall|p: int|
                0 <= p < 225 ==> imgs[i].pixels@[p] == spec_ega_pixel(data, i, p)
        }
}

/// Reduce a crumb to a single channel bit.
fn channel_bit(data: &[u8], pos: usize, part: u8) -> (b: u8)
    requires
        pos < data@.len(),
        part < 4,
    ensures
        b == (if spec_crumb(data@[pos as int], part) != 0 {
            1u8
        } else {
            0u8
        }),
{
    let c = crumb(&data[pos], part);
    if c != 0 {
        1
    } else {
        0
    }
}

/// Decode one block into its 15x15 image.
fn decode_block(data: &[u8], img_i: usize) -> (r: Image)
    requires
        (img_i + 1) * 256 <= data@.len(),
        data@.len() <= usize::MAX,
    ensures
        r.width == 15,
        r.height == 15,
        r.pixels@.len() == 225,
        forall|p: int| 0 <= p < 225 ==> r.pixels@[p] == spec_ega_pixel(data@, img_i as int, p),
{
    proof {
        assert((img_i + 1) * 256 == img_i * 256 + 256) by (nonlinear_arith);
    }
    let base = img_i * 256;
    let mut pixels: Vec<Color> = Vec::new();
    let mut y: usize = 0;
    while y < 15
        invariant
            (img_i + 1) * 256 <= data@.len(),
            data@.len() <= usize::MAX,
            base == img_i * 256,
            base + 256 <= data@.len(),
            y <= 15,
            pixels@.len() == y * 15,
            forall|p: int| 0 <= p < y * 15 ==> pixels@[p] == spec_ega_pixel(
                data@,
                img_i as int,
                p,
            ),
        decreases 15 - y,
    {
        let mut x: usize = 0;
        while x < 15
            invariant
                (img_i + 1) * 256 <= data@.len(),
                base == img_i * 256,
                base + 256 <= data@.len(),
                y < 15,
                x <= 15,
                pixels@.len() == y * 15 + x,
                forall|p: int| 0 <= p < y * 15 + x ==> pixels@[p] == spec_ega_pixel(
                    data@,
                    img_i as int,
                    p,
                ),
            decreases 15 - x,
        {
            let rowbase = base + 4 + y * 16;
            let col = x / 4;
            let part = (3 - (x % 4)) as u8;
            let b0 = channel_bit(data, rowbase + col, part);
            let b1 = channel_bit(data, rowbase + 4 + col, part);
            let b2 = channel_bit(data, rowbase + 8 + col, part);
            let b3 = channel_bit(data, rowbase + 12 + col, part);
            let idx = 8 * b0 + 4 * b1 + 2 * b2 + b3;
            pixels.push(ega_palette(idx));
            proof {
                let p = y * 15 + x;
                lemma_fundamental_div_mod_converse(p as int, 15, y as int, x as int);
                assert(pixels@[p as int] == spec_ega_pixel(data@, img_i as int, p as int));
            }
            x += 1;
        }
        y += 1;
    }
    Image { width: IMAGE_DIMENSION_USIZE, height: IMAGE_DIMENSION_USIZE, pixels }
}

/// Decode a whole 16-color sprite sheet: one image per whole 256-byte block.
/// Trailing bytes short of a full block are ignored, so decoding stops
/// gracefully at the end of the last complete block.
pub fn decode_spritesheet(data: &[u8]) -> (r: Vec<Image>)
    ensures
        ega_decoded(data@, r@),
{
    let count = data.len() / 256;
    proof {
        lemma_fundamental_div_mod(data@.len() as int, 256);
    }
    let mut imgs: Vec<Image> = Vec::new();
    let mut i: usize = 0;
    while i < count
        invariant
            count == data@.len() / 256,
            count * 256 <= data@.len(),
            data@.len() <= usize::MAX,
            i <= count,
            imgs@.len() == i,
            forall|k: int|
                0 <= k < i ==> {
                    &&& (#[trigger] imgs@[k]).width == 15
                    &&& imgs@[k].height == 15
                    &&& imgs@[k].pixels@.len() == 225
                    &&& forall|p: int|
                        0 <= p < 225 ==> imgs@[k].pixels@[p] == spec_ega_pixel(data@, k, p)
                },
        decreases count - i,
    {
        let image = decode_block(data, i);
        imgs.push(image);
        i += 1;
    }
    imgs
}

} // verus!
