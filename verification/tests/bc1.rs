use block_compression::bc1::{decode, Block, R5G6B5};
use block_compression::Error;

#[test]
fn decode_rejects_unaligned_length() {
    let data = [0u8; 7];

    let err = decode(&data, 4, 4).unwrap_err();

    assert!(matches!(err, Error::FormatError(_)));
}

#[test]
fn decode_full_grid_has_exact_output_size() {
    // An 8x8 image: a 2x2 grid of blocks, 32 bytes of input.
    let data = [0u8; 32];

    let raster = decode(&data, 8, 8).unwrap();

    assert_eq!(raster.len(), 8 * 8 * 3);
    // All-zero blocks decode to black everywhere.
    assert!(raster.iter().all(|&b| b == 0));
}

#[test]
fn color_expansion_hits_the_extremes() {
    let white = R5G6B5(0xFFFF).as_r8g8b8();
    assert_eq!((white.0, white.1, white.2), (255, 255, 255));

    let black = R5G6B5(0x0000).as_r8g8b8();
    assert_eq!((black.0, black.1, black.2), (0, 0, 0));
}

#[test]
fn four_color_palette_blends_toward_each_endpoint() {
    // Red 565 (0xF800) > blue 565 (0x001F): a four-color block.
    let block = Block { color0: R5G6B5(0xF800), color1: R5G6B5(0x001F), indices: 0 };

    let colors = block.colors();

    assert_eq!((colors[0].0, colors[0].1, colors[0].2), (255, 0, 0));
    assert_eq!((colors[1].0, colors[1].1, colors[1].2), (0, 0, 255));
    // Two thirds toward color0: ((2*255 + 0)/3, 0, (0 + 255)/3).
    assert_eq!((colors[2].0, colors[2].1, colors[2].2), (170, 0, 85));
    // Two thirds toward color1.
    assert_eq!((colors[3].0, colors[3].1, colors[3].2), (85, 0, 170));
}

#[test]
fn three_color_palette_averages_and_ends_black() {
    // Blue 565 (0x001F) <= red 565 (0xF800): a three-color block.
    let block = Block { color0: R5G6B5(0x001F), color1: R5G6B5(0xF800), indices: 0 };

    let colors = block.colors();

    assert_eq!((colors[0].0, colors[0].1, colors[0].2), (0, 0, 255));
    assert_eq!((colors[1].0, colors[1].1, colors[1].2), (255, 0, 0));
    // The truncating per-channel average of the endpoints.
    assert_eq!((colors[2].0, colors[2].1, colors[2].2), (127, 0, 127));
    // The fourth entry is black, standing for "transparent".
    assert_eq!((colors[3].0, colors[3].1, colors[3].2), (0, 0, 0));
}

#[test]
fn decode_selects_by_index() {
    // One block, red and blue endpoints; the first four pixels use palette
    // entries 0, 1, 2, 3 in turn, all other pixels entry 0.
    let data = [0x00, 0xF8, 0x1F, 0x00, 0xE4, 0x00, 0x00, 0x00];

    let raster = decode(&data, 4, 4).unwrap();

    assert_eq!(raster.len(), 48);
    assert_eq!(&raster[0..3], &[255, 0, 0]);
    assert_eq!(&raster[3..6], &[0, 0, 255]);
    assert_eq!(&raster[6..9], &[170, 0, 85]);
    assert_eq!(&raster[9..12], &[85, 0, 170]);
    // The second raster row goes back to palette entry 0.
    assert_eq!(&raster[12..15], &[255, 0, 0]);
}

#[test]
fn decode_clips_blocks_at_the_image_edge() {
    // A 3x3 image still needs one full 4x4 block; the block's fourth row
    // and column are decoded but discarded.
    let data = [0x00, 0xF8, 0x1F, 0x00, 0xE4, 0x00, 0x00, 0x00];

    let raster = decode(&data, 3, 3).unwrap();

    assert_eq!(raster.len(), 3 * 3 * 3);
    // Pixels (0,0), (0,1), (0,2) keep palette entries 0, 1, 2; the entry-3
    // pixel at column 3 falls outside the image.
    assert_eq!(&raster[0..3], &[255, 0, 0]);
    assert_eq!(&raster[3..6], &[0, 0, 255]);
    assert_eq!(&raster[6..9], &[170, 0, 85]);
    // All remaining pixels use palette entry 0.
    assert_eq!(&raster[9..12], &[255, 0, 0]);
    assert_eq!(&raster[24..27], &[255, 0, 0]);
}

#[test]
fn decode_addresses_blocks_row_major() {
    // An 8x4 image: two blocks side by side.  The left block is all red,
    // the right block all blue.
    let data = [
        0x00, 0xF8, 0x00, 0x00, 0x00, 0x00, 0x00, 0x00, 0x1F, 0x00, 0x00, 0x00, 0x00, 0x00, 0x00,
        0x00,
    ];

    let raster = decode(&data, 8, 4).unwrap();

    assert_eq!(raster.len(), 8 * 4 * 3);
    // Pixel (0, 0) lies in the left block, pixel (0, 4) in the right one.
    assert_eq!(&raster[0..3], &[255, 0, 0]);
    assert_eq!(&raster[12..15], &[0, 0, 255]);
    // The second raster row repeats the pattern.
    assert_eq!(&raster[24..27], &[255, 0, 0]);
    assert_eq!(&raster[36..39], &[0, 0, 255]);
}

#[test]
fn decode_tolerates_extra_blocks() {
    // A 4x4 image needs one block; a stream with two is still accepted and
    // the second block is ignored.
    let data = [
        0x00, 0xF8, 0x1F, 0x00, 0x00, 0x00, 0x00, 0x00, 0xFF, 0xFF, 0xFF, 0xFF, 0xFF, 0xFF, 0xFF,
        0xFF,
    ];

    let raster = decode(&data, 4, 4).unwrap();

    assert_eq!(raster.len(), 48);
    assert_eq!(&raster[0..3], &[255, 0, 0]);
}
