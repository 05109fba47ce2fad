use dungeon_assets::cga;
use dungeon_assets::ega;
use dungeon_assets::error::DecodeError;
use dungeon_assets::img::{apply_mask, decode_spritesheet, Color, Image};

const BLACK: Color = Color { r: 0x00, g: 0x00, b: 0x00, a: 0xFF };
const CYAN: Color = Color { r: 0x00, g: 0xFF, b: 0xFF, a: 0xFF };
const MAGENTA: Color = Color { r: 0xFF, g: 0x00, b: 0xFF, a: 0xFF };
const WHITE: Color = Color { r: 0xFF, g: 0xFF, b: 0xFF, a: 0xFF };

fn cga_block(fill: u8) -> Vec<u8> {
    let mut b = vec![fill; 256];
    b[0] = 0x0E;
    b[1] = 0x00;
    b[2] = 0x0E;
    b[3] = 0x00;
    b
}

fn ega_block(fill: u8) -> Vec<u8> {
    let mut b = vec![fill; 256];
    b[0] = 0x1D;
    b[1] = 0x00;
    b[2] = 0x0E;
    b[3] = 0x00;
    b
}

#[test]
fn dispatch_routes_cga_test() {
    // 0b00011011 expands to the crumbs 0,1,2,3 (most significant first),
    // so each row repeats black, cyan, magenta, white.
    let imgs = decode_spritesheet(&cga_block(0b00011011)).unwrap();
    assert_eq!(imgs.len(), 1);
    assert_eq!(imgs[0].width, 15);
    assert_eq!(imgs[0].height, 15);
    assert_eq!(imgs[0].pixels.len(), 225);
    assert_eq!(imgs[0].pixels[0], BLACK);
    assert_eq!(imgs[0].pixels[1], CYAN);
    assert_eq!(imgs[0].pixels[2], MAGENTA);
    assert_eq!(imgs[0].pixels[3], WHITE);
    // Row 1 starts at the next 4-byte row span, so it opens with the same
    // crumb pattern.
    assert_eq!(imgs[0].pixels[15], BLACK);
    assert_eq!(imgs[0].pixels[16], CYAN);
}

#[test]
fn dispatch_routes_ega_test() {
    // All data bytes 0xFF: every channel bit is set, every pixel is white.
    let imgs = decode_spritesheet(&ega_block(0xFF)).unwrap();
    assert_eq!(imgs.len(), 1);
    assert_eq!(imgs[0].width, 15);
    assert_eq!(imgs[0].height, 15);
    assert_eq!(imgs[0].pixels.len(), 225);
    assert!(imgs[0].pixels.iter().all(|p| *p == WHITE));
}

#[test]
fn dispatch_rejects_unknown_header_test() {
    let mut b = vec![0u8; 256];
    b[0] = 0x7F;
    assert!(matches!(decode_spritesheet(&b), Err(DecodeError::UnrecognizedFormat)));
}

#[test]
fn dispatch_rejects_short_buffer_test() {
    assert!(matches!(decode_spritesheet(&[0x0E, 0x00]), Err(DecodeError::MalformedInput)));
}

#[test]
fn ega_channel_weights_test() {
    // Row 0 holds four 4-byte channel planes side by side. A single set
    // crumb at the start of the first plane sets only the most significant
    // bit of pixel (0, 0), giving palette index 8: dark gray.
    let mut b = ega_block(0x00);
    b[4] = 0b11000000;
    let imgs = ega::decode_spritesheet(&b);
    assert_eq!(imgs.len(), 1);
    assert_eq!(imgs[0].pixels[0], Color { r: 0x55, g: 0x55, b: 0x55, a: 0xFF });
    assert_eq!(imgs[0].pixels[1], BLACK);

    // The same crumb in the last plane contributes the least significant
    // bit, palette index 1: blue.
    let mut b2 = ega_block(0x00);
    b2[16] = 0b11000000;
    let imgs2 = ega::decode_spritesheet(&b2);
    assert_eq!(imgs2[0].pixels[0], Color { r: 0x00, g: 0x00, b: 0xAA, a: 0xFF });
}

#[test]
fn ega_any_nonzero_crumb_counts_test() {
    // A crumb of 0b01 collapses to a set bit just as 0b11 does.
    let mut b = ega_block(0x00);
    b[4] = 0b01000000;
    let imgs = ega::decode_spritesheet(&b);
    assert_eq!(imgs[0].pixels[0], Color { r: 0x55, g: 0x55, b: 0x55, a: 0xFF });
}

#[test]
fn decoder_image_count_test() {
    // Two whole blocks give two images; trailing bytes short of a block
    // are ignored.
    let mut two = cga_block(0);
    two.extend(cga_block(0b00011011));
    let imgs = cga::decode_spritesheet(&two);
    assert_eq!(imgs.len(), 2);
    assert_eq!(imgs[0].pixels[0], BLACK);
    assert_eq!(imgs[1].pixels[1], CYAN);

    let mut ragged = cga_block(0);
    ragged.extend(vec![0u8; 100]);
    assert_eq!(cga::decode_spritesheet(&ragged).len(), 1);
    assert_eq!(ega::decode_spritesheet(&[0u8; 255]).len(), 0);
}

#[test]
fn cga_row_padding_dropped_test() {
    // Set only the 16th crumb of row 0 (the low crumb of the row's last
    // byte); it is padding and must not appear in any decoded pixel.
    let mut b = cga_block(0x00);
    b[7] = 0b00000011;
    let imgs = cga::decode_spritesheet(&b);
    assert!(imgs[0].pixels.iter().all(|p| *p == BLACK));
}

fn flat_image(w: usize, h: usize, c: Color) -> Image {
    Image { width: w, height: h, pixels: vec![c; w * h] }
}

#[test]
fn apply_mask_cuts_out_test() {
    let mut img = flat_image(2, 1, MAGENTA);
    let mut mask = flat_image(2, 1, WHITE);
    mask.pixels[1] = BLACK;
    apply_mask(&mut img, &mask).unwrap();
    assert_eq!(img.pixels[0], Color { r: 0xFF, g: 0x00, b: 0xFF, a: 0x00 });
    assert_eq!(img.pixels[1], MAGENTA);
}

#[test]
fn apply_mask_needs_exact_white_test() {
    let mut img = flat_image(1, 1, MAGENTA);
    // A translucent white is not the key color.
    let mask = Image { width: 1, height: 1, pixels: vec![Color { r: 0xFF, g: 0xFF, b: 0xFF, a: 0xFE }] };
    apply_mask(&mut img, &mask).unwrap();
    assert_eq!(img.pixels[0], MAGENTA);
}

#[test]
fn apply_mask_idempotent_test() {
    let mut img = flat_image(2, 2, CYAN);
    let mut mask = flat_image(2, 2, BLACK);
    mask.pixels[2] = WHITE;
    apply_mask(&mut img, &mask).unwrap();
    let once: Vec<Color> = img.pixels.clone();
    apply_mask(&mut img, &mask).unwrap();
    assert_eq!(img.pixels, once);
}

#[test]
fn apply_mask_dimension_mismatch_test() {
    let mut img = flat_image(2, 1, CYAN);
    let mask = flat_image(1, 2, WHITE);
    assert_eq!(apply_mask(&mut img, &mask), Err(DecodeError::DimensionMismatch));
    assert_eq!(img.pixels, vec![CYAN, CYAN]);
}
