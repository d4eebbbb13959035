//! Decoder for the BC1 (DXT1) block-compression algorithm.
//!
//! BC1 data is a sequence of 8-byte blocks, each covering a 4x4 pixel tile
//! of the image in row-major tile order.  A block stores two endpoint colors
//! in a packed 5:6:5 encoding followed by sixteen 2-bit palette indices:
//!
//! - `color0`: u16, little-endian, bit layout `[R:5][G:6][B:5]` high to low
//! - `color1`: u16, same layout
//! - `indices`: u32, little-endian; entry `n` sits at bits `2*n..2*n+2`,
//!   entry 0 in the least significant bits
//!
//! The two remaining palette entries are interpolated from the endpoints;
//! which interpolation applies depends on the order of the two packed
//! endpoint values (see [`Block::colors`]).

use vstd::prelude::*;

use vstd::arithmetic::div_mod::lemma_fundamental_div_mod;
use vstd::arithmetic::div_mod::lemma_fundamental_div_mod_converse;

use crate::bytes::{le16, le32, read_le16, read_le32};
use crate::error::Error;

verus! {

/// A color packed as RGB 5:6:5, red in the high bits.
#[derive(Copy, Clone)]
pub struct R5G6B5(pub u16);

/// A color with three 8-bit channels: red, green, blue.
#[derive(Copy, Clone)]
pub struct R8G8B8(pub u8, pub u8, pub u8);

/// The red channel of a packed 5:6:5 color: the top 5 bits.
pub open spec fn spec_red5(c: u16) -> int {
    c as int / 2048
}

/// The green channel of a packed 5:6:5 color: the middle 6 bits.
pub open spec fn spec_green6(c: u16) -> int {
    (c as int / 32) % 64
}

/// The blue channel of a packed 5:6:5 color: the low 5 bits.
pub open spec fn spec_blue5(c: u16) -> int {
    c as int % 32
}

/// Expansion of a 5-bit channel value to 8 bits by bit replication.
pub open spec fn spec_expand5(v: int) -> int {
    (v * 527 + 23) / 64
}

/// Expansion of a 6-bit channel value to 8 bits by bit replication.
pub open spec fn spec_expand6(v: int) -> int {
    (v * 259 + 33) / 64
}

/// The 8:8:8 color that a packed 5:6:5 color expands to.
pub open spec fn spec_as_r8g8b8(c: u16) -> R8G8B8 {
    R8G8B8(
        spec_expand5(spec_red5(c)) as u8,
        spec_expand6(spec_green6(c)) as u8,
        spec_expand5(spec_blue5(c)) as u8,
    )
}

impl R5G6B5 {
    /// Expands the packed 5:6:5 color to three 8-bit channels.
    ///
    /// Each channel is widened by bit replication, `(v*527 + 23) >> 6` for
    /// the 5-bit channels and `(v*259 + 33) >> 6` for the 6-bit one, so that
    /// an all-ones channel expands to exactly 255 and zero stays zero.
    pub fn as_r8g8b8(&self) -> (c: R8G8B8)
        ensures
            c == spec_as_r8g8b8(self.0),
    {
        let v = self.0;
        let r: u16 = v / 2048;
        let g: u16 = (v / 32) % 64;
        let b: u16 = v % 32;

        assert(r <= 31 && g <= 63 && b <= 31);

        let r8 = ((r * 527 + 23) / 64) as u8;
        let g8 = ((g * 259 + 33) / 64) as u8;
        let b8 = ((b * 527 + 23) / 64) as u8;

        R8G8B8(r8, g8, b8)
    }
}

/// Two-thirds blend of two 8-bit channel values, weighted toward `a`,
/// with truncating division.
pub open spec fn spec_lerp(a: int, b: int) -> int {
    (2 * a + b) / 3
}

/// Truncating per-channel average of two 8-bit channel values.
pub open spec fn spec_avg(a: int, b: int) -> int {
    (a + b) / 2
}

/// Entry `i` of the 4-color palette derived from the packed endpoint colors
/// `c0` and `c1`.
///
/// The endpoints are compared by their packed 5:6:5 integer value.  When
/// `c0 > c1` the block is a four-color opaque block and the two inner
/// entries are two-thirds blends of the expanded endpoints; otherwise the
/// block has three colors plus "transparent", decoded here as black.
pub open spec fn spec_palette(c0: u16, c1: u16, i: int) -> R8G8B8 {
    let e0 = spec_as_r8g8b8(c0);
    let e1 = spec_as_r8g8b8(c1);
    if i == 0 {
        e0
    } else if i == 1 {
        e1
    } else if c0 > c1 {
        if i == 2 {
            R8G8B8(
                spec_lerp(e0.0 as int, e1.0 as int) as u8,
                spec_lerp(e0.1 as int, e1.1 as int) as u8,
                spec_lerp(e0.2 as int, e1.2 as int) as u8,
            )
        } else {
            R8G8B8(
                spec_lerp(e1.0 as int, e0.0 as int) as u8,
                spec_lerp(e1.1 as int, e0.1 as int) as u8,
                spec_lerp(e1.2 as int, e0.2 as int) as u8,
            )
        }
    } else {
        if i == 2 {
            R8G8B8(
                spec_avg(e0.0 as int, e1.0 as int) as u8,
                spec_avg(e0.1 as int, e1.1 as int) as u8,
                spec_avg(e0.2 as int, e1.2 as int) as u8,
            )
        } else {
            R8G8B8(0, 0, 0)
        }
    }
}

/// One 8-byte BC1 block: two packed endpoint colors and sixteen 2-bit
/// palette indices.
#[derive(Copy, Clone)]
pub struct Block {
    /// The first endpoint color.
    pub color0: R5G6B5,
    /// The second endpoint color.
    pub color1: R5G6B5,
    /// 2-bit palette indices for the 16 pixels of the tile; index `n` sits
    /// at bits `2*n..2*n+2`.
    pub indices: u32,
}

impl Block {
    /// Derives the block's 4-color palette from its two endpoint colors.
    ///
    /// Entries 0 and 1 are the expanded endpoints.  When the packed value of
    /// `color0` exceeds that of `color1`, entries 2 and 3 are the two-thirds
    /// blends toward each endpoint; otherwise entry 2 is the per-channel
    /// average and entry 3 is black (standing for "transparent").
    pub fn colors(&self) -> (r: [R8G8B8; 4])
        ensures
            forall|i: int| 0 <= i < 4 ==> r[i] == spec_palette(self.color0.0, self.color1.0, i),
    {
        let c0 = self.color0.as_r8g8b8();
        let c1 = self.color1.as_r8g8b8();

        let (r0, g0, b0) = (c0.0, c0.1, c0.2);
        let (r1, g1, b1) = (c1.0, c1.1, c1.2);

        let c2: R8G8B8;
        let c3: R8G8B8;

        if self.color0.0 > self.color1.0 {
            c2 = R8G8B8(lerp(r0, r1), lerp(g0, g1), lerp(b0, b1));
            c3 = R8G8B8(lerp(r1, r0), lerp(g1, g0), lerp(b1, b0));
        } else {
            c2 = R8G8B8(avg(r0, r1), avg(g0, g1), avg(b0, b1));
            c3 = R8G8B8(0, 0, 0);
        }

        [c0, c1, c2, c3]
    }
}

/// Two-thirds blend of two channel values, weighted toward `el0`.
fn lerp(el0: u8, el1: u8) -> (r: u8)
    ensures
        r == spec_lerp(el0 as int, el1 as int),
{
    ((2 * el0 as u16 + el1 as u16) / 3) as u8
}

/// Truncating average of two channel values.
fn avg(el0: u8, el1: u8) -> (r: u8)
    ensures
        r == spec_avg(el0 as int, el1 as int),
{
    ((el0 as u16 + el1 as u16) / 2) as u8
}

/// The size of one compressed block in bytes.
pub const BLOCK_SIZE: usize = 8;

/// The number of 4x4 tiles covering `dim` pixels along one axis: at least 1,
/// otherwise the dimension divided by 4 and rounded up.
pub open spec fn spec_grid_dim(dim: u32) -> int {
    let t = (dim + 3) / 4;
    if t < 1 {
        1
    } else {
        t
    }
}

/// The tile count along an axis is positive, at most `0x4000_0000`, and the
/// tiles cover every pixel of the axis.
proof fn lemma_grid_covers(dim: u32)
    ensures
        1 <= spec_grid_dim(dim),
        spec_grid_dim(dim) <= 0x4000_0000,
        dim <= 4 * spec_grid_dim(dim),
{
    lemma_fundamental_div_mod(dim + 3, 4);
}

/// A pixel coordinate `v` on an axis of size `dim` falls in tile `v / 4`,
/// at offset `v % 4`.
proof fn lemma_tile_of_pixel(dim: u32, v: int)
    requires
        0 <= v < dim,
    ensures
        0 <= v / 4 < spec_grid_dim(dim),
        0 <= v % 4 < 4,
        v == 4 * (v / 4) + v % 4,
{
    lemma_grid_covers(dim);
    lemma_fundamental_div_mod(v, 4);
    lemma_fundamental_div_mod(dim + 3, 4);
}

/// Returns the number if it's not 0, returns 1 otherwise.
fn clamp_non_zero(num: u32) -> (r: u32)
    ensures
        num == 0 ==> r == 1,
        num > 0 ==> r == num,
{
    if num == 0 {
        1
    } else {
        num
    }
}

/// The number of block columns covering an image `width` pixels wide.
fn columns(width: u32) -> (r: u32)
    ensures
        r == spec_grid_dim(width),
{
    proof {
        lemma_grid_covers(width);
    }
    clamp_non_zero(((width as u64 + 3) / 4) as u32)
}

/// The number of block rows covering an image `height` pixels tall.
fn rows(height: u32) -> (r: u32)
    ensures
        r == spec_grid_dim(height),
{
    proof {
        lemma_grid_covers(height);
    }
    clamp_non_zero(((height as u64 + 3) / 4) as u32)
}

/// The 2-bit palette index of pixel `n` of a block, stored at bit `2 * n`.
pub open spec fn spec_sel(indices: u32, n: int) -> u32 {
    (indices >> ((2 * n) as u32)) & 3
}

/// The low two bits of a u32 are below 4.
proof fn lemma_mask_lt_4(v: u32)
    ensures
        v & 3 < 4,
{
    assert(v & 3 < 4) by (bit_vector);
}

/// The color that the block covering pixel `(x, y)` assigns to it, with `x`
/// counting raster rows and `y` raster columns.  The block sits at linear
/// index `(x / 4) * columns + y / 4` of the stream, and within the tile the
/// pixel uses palette index entry `(x % 4) * 4 + y % 4`.
#[verifier::opaque]
pub open spec fn spec_decoded_pixel(data: Seq<u8>, width: u32, x: int, y: int) -> R8G8B8 {
    let bi = (x / 4) * spec_grid_dim(width) + y / 4;
    let c0 = le16(data, 8 * bi) as u16;
    let c1 = le16(data, 8 * bi + 2) as u16;
    let indices = le32(data, 8 * bi + 4) as u32;
    let n = (x % 4) * 4 + y % 4;
    spec_palette(c0, c1, spec_sel(indices, n) as int)
}

/// The first byte of pixel `(x, y)` in an RGB888 raster `width` pixels wide.
pub open spec fn pix_base(width: u32, x: int, y: int) -> int {
    (x * width + y) * 3
}

/// Pixel `(x, y)` of the raster `out` holds the color that the block stream
/// `data` assigns to it.
pub open spec fn pixel_ok(out: Seq<u8>, data: Seq<u8>, width: u32, x: int, y: int) -> bool {
    let c = spec_decoded_pixel(data, width, x, y);
    &&& out[pix_base(width, x, y)] == c.0
    &&& out[pix_base(width, x, y) + 1] == c.1
    &&& out[pix_base(width, x, y) + 2] == c.2
}

/// Distinct pixels occupy disjoint 3-byte ranges of the raster.
proof fn lemma_pix_base_distinct(width: u32, x1: int, y1: int, x2: int, y2: int)
    requires
        0 <= x1,
        0 <= x2,
        0 <= y1 < width,
        0 <= y2 < width,
        !(x1 == x2 && y1 == y2),
    ensures
        pix_base(width, x1, y1) + 3 <= pix_base(width, x2, y2) || pix_base(width, x2, y2) + 3
            <= pix_base(width, x1, y1),
{
    if x1 < x2 {
        assert(x1 * width + y1 < x2 * width + y2) by (nonlinear_arith)
            requires
                0 <= x1,
                x1 < x2,
                0 <= y1 < width,
                0 <= y2,
        ;
    } else if x2 < x1 {
        assert(x2 * width + y2 < x1 * width + y1) by (nonlinear_arith)
            requires
                0 <= x2,
                x2 < x1,
                0 <= y2 < width,
                0 <= y1,
        ;
    }
}

/// The 3 bytes of an in-image pixel lie inside the `width * height * 3`-byte
/// raster.
proof fn lemma_pix_in_range(width: u32, height: u32, x: int, y: int)
    requires
        0 <= x < height,
        0 <= y < width,
    ensures
        0 <= pix_base(width, x, y),
        pix_base(width, x, y) + 3 <= width * height * 3,
{
    assert(0 <= x * width + y && x * width + y < height * width) by (nonlinear_arith)
        requires
            0 <= x < height,
            0 <= y < width,
    ;
}

/// A block of the grid lies inside a stream sized for the whole grid.
proof fn lemma_block_in_range(width: u32, height: u32, row: int, col: int, len: int)
    requires
        0 <= row < spec_grid_dim(height),
        0 <= col < spec_grid_dim(width),
        len >= spec_grid_dim(width) * spec_grid_dim(height) * 8,
    ensures
        0 <= row * spec_grid_dim(width) + col,
        8 * (row * spec_grid_dim(width) + col) + 8 <= len,
{
    let cols = spec_grid_dim(width);
    let rws = spec_grid_dim(height);
    assert(0 <= row * cols + col && row * cols + col < rws * cols) by (nonlinear_arith)
        requires
            0 <= row < rws,
            0 <= col < cols,
    ;
    assert(cols * rws * 8 == (rws * cols) * 8) by (nonlinear_arith);
}

/// Reads the block at linear index `bi` of the stream, field by field.
fn read_block(data: &[u8], bi: usize) -> (b: Block)
    requires
        8 * bi + 8 <= data@.len(),
    ensures
        b.color0.0 == le16(data@, 8 * bi),
        b.color1.0 == le16(data@, 8 * bi + 2),
        b.indices == le32(data@, 8 * bi + 4),
{
    proof {
        broadcast use vstd::slice::axiom_spec_len;

        assert(vstd::slice::spec_slice_len(data) == data@.len());
    }
    let off = 8 * bi;
    Block {
        color0: R5G6B5(read_le16(data, off)),
        color1: R5G6B5(read_le16(data, off + 2)),
        indices: read_le32(data, off + 4),
    }
}

/// Writes one pixel's three channel bytes into the raster, leaving every
/// other byte unchanged.
fn set_pixel(output: &mut Vec<u8>, width: u32, x: u32, y: u32, color: R8G8B8)
    requires
        y < width,
        pix_base(width, x as int, y as int) + 3 <= old(output)@.len(),
        old(output)@.len() <= usize::MAX,
    ensures
        final(output)@.len() == old(output)@.len(),
        final(output)@[pix_base(width, x as int, y as int)] == color.0,
        final(output)@[pix_base(width, x as int, y as int) + 1] == color.1,
        final(output)@[pix_base(width, x as int, y as int) + 2] == color.2,
        forall|i: int|
            0 <= i < final(output)@.len() && !(pix_base(width, x as int, y as int) <= i < pix_base(
                width,
                x as int,
                y as int,
            ) + 3) ==> final(output)@[i] == old(output)@[i],
{
    proof {
        let xi = x as int;
        let yi = y as int;
        let wi = width as int;
        assert((xi * wi + yi) * 3 == 3 * (xi * wi) + 3 * yi) by (nonlinear_arith);
        assert(xi * wi >= 0) by (nonlinear_arith)
            requires
                0 <= xi,
                0 <= wi,
        ;
    }
    let base = ((x as usize) * (width as usize) + (y as usize)) * 3;
    output[base] = color.0;
    output[base + 1] = color.1;
    output[base + 2] = color.2;
}

/// The walk of the block grid, standing at block `(row, col)` and tile
/// offset `(ox, oy)`, has already written pixel `(x, y)`: the pixel's tile
/// and offset come lexicographically before the walk's position.
pub open spec fn visited(x: int, y: int, row: int, col: int, ox: int, oy: int) -> bool {
    ||| x / 4 < row
    ||| (x / 4 == row && y / 4 < col)
    ||| (x / 4 == row && y / 4 == col && x % 4 < ox)
    ||| (x / 4 == row && y / 4 == col && x % 4 == ox && y % 4 < oy)
}

/// After writing pixel `(px, py)`'s bytes, every pixel written so far —
/// those visited before plus the one just written — holds its decoded color.
proof fn lemma_after_write(
    pre: Seq<u8>,
    post: Seq<u8>,
    data: Seq<u8>,
    width: u32,
    height: u32,
    row: int,
    col: int,
    ox: int,
    oy: int,
    px: int,
    py: int,
)
    requires
        0 <= row,
        0 <= col,
        0 <= ox < 4,
        0 <= oy < 4,
        px == 4 * row + ox,
        py == 4 * col + oy,
        0 <= px < height,
        0 <= py < width,
        pre.len() == width * height * 3,
        post.len() == pre.len(),
        forall|x: int, y: int|
            0 <= x < height && 0 <= y < width && visited(x, y, row, col, ox, oy)
                ==> #[trigger] pixel_ok(pre, data, width, x, y),
        pixel_ok(post, data, width, px, py),
        forall|i: int|
            0 <= i < post.len() && !(pix_base(width, px, py) <= i < pix_base(width, px, py) + 3)
                ==> post[i] == pre[i],
    ensures
        forall|x: int, y: int|
            0 <= x < height && 0 <= y < width && visited(x, y, row, col, ox, oy + 1)
                ==> #[trigger] pixel_ok(post, data, width, x, y),
{
    assert forall|x2: int, y2: int|
        0 <= x2 < height && 0 <= y2 < width && visited(x2, y2, row, col, ox, oy + 1)
        implies #[trigger] pixel_ok(post, data, width, x2, y2) by {
        if !(x2 == px && y2 == py) {
            if !visited(x2, y2, row, col, ox, oy) {
                lemma_fundamental_div_mod(x2, 4);
                lemma_fundamental_div_mod(y2, 4);
            }
            assert(pixel_ok(pre, data, width, x2, y2));
            lemma_pix_base_distinct(width, px, py, x2, y2);
            lemma_pix_in_range(width, height, x2, y2);
        }
    }
}

/// Skipping a tile pixel that falls outside the image keeps the walk's
/// correctness: the pixel was never part of the raster.
proof fn lemma_after_clip(
    out: Seq<u8>,
    data: Seq<u8>,
    width: u32,
    height: u32,
    row: int,
    col: int,
    ox: int,
    oy: int,
    px: int,
    py: int,
)
    requires
        0 <= row,
        0 <= col,
        0 <= ox < 4,
        0 <= oy < 4,
        px == 4 * row + ox,
        py == 4 * col + oy,
        px >= height || py >= width,
        forall|x: int, y: int|
            0 <= x < height && 0 <= y < width && visited(x, y, row, col, ox, oy)
                ==> #[trigger] pixel_ok(out, data, width, x, y),
    ensures
        forall|x: int, y: int|
            0 <= x < height && 0 <= y < width && visited(x, y, row, col, ox, oy + 1)
                ==> #[trigger] pixel_ok(out, data, width, x, y),
{
    assert forall|x2: int, y2: int|
        0 <= x2 < height && 0 <= y2 < width && visited(x2, y2, row, col, ox, oy + 1)
        implies #[trigger] pixel_ok(out, data, width, x2, y2) by {
        if !visited(x2, y2, row, col, ox, oy) {
            lemma_fundamental_div_mod(x2, 4);
            lemma_fundamental_div_mod(y2, 4);
        }
    }
}

/// A walk that finished tile row `ox` stands at the head of tile row
/// `ox + 1`: the two frontiers bound the same set of pixels.
proof fn lemma_next_tile_row(
    out: Seq<u8>,
    data: Seq<u8>,
    width: u32,
    height: u32,
    row: int,
    col: int,
    ox: int,
)
    requires
        forall|x: int, y: int|
            0 <= x < height && 0 <= y < width && visited(x, y, row, col, ox, 4)
                ==> #[trigger] pixel_ok(out, data, width, x, y),
    ensures
        forall|x: int, y: int|
            0 <= x < height && 0 <= y < width && visited(x, y, row, col, ox + 1, 0)
                ==> #[trigger] pixel_ok(out, data, width, x, y),
{
    assert forall|x2: int, y2: int|
        0 <= x2 < height && 0 <= y2 < width && visited(x2, y2, row, col, ox + 1, 0)
        implies #[trigger] pixel_ok(out, data, width, x2, y2) by {
        assert(visited(x2, y2, row, col, ox, 4));
    }
}

/// A walk that finished every pixel row of tile `(row, col)` stands at the
/// head of tile `(row, col + 1)`.
proof fn lemma_next_tile(
    out: Seq<u8>,
    data: Seq<u8>,
    width: u32,
    height: u32,
    row: int,
    col: int,
)
    requires
        forall|x: int, y: int|
            0 <= x < height && 0 <= y < width && visited(x, y, row, col, 4, 0)
                ==> #[trigger] pixel_ok(out, data, width, x, y),
    ensures
        forall|x: int, y: int|
            0 <= x < height && 0 <= y < width && visited(x, y, row, col + 1, 0, 0)
                ==> #[trigger] pixel_ok(out, data, width, x, y),
{
    assert forall|x2: int, y2: int|
        0 <= x2 < height && 0 <= y2 < width && visited(x2, y2, row, col + 1, 0, 0)
        implies #[trigger] pixel_ok(out, data, width, x2, y2) by {
        assert(visited(x2, y2, row, col, 4, 0));
    }
}

/// A walk that finished the last tile column of block row `row` stands at
/// the head of block row `row + 1`: every pixel column lies in some tile
/// column of the grid.
proof fn lemma_next_block_row(
    out: Seq<u8>,
    data: Seq<u8>,
    width: u32,
    height: u32,
    row: int,
)
    requires
        forall|x: int, y: int|
            0 <= x < height && 0 <= y < width && visited(x, y, row, spec_grid_dim(width), 0, 0)
                ==> #[trigger] pixel_ok(out, data, width, x, y),
    ensures
        forall|x: int, y: int|
            0 <= x < height && 0 <= y < width && visited(x, y, row + 1, 0, 0, 0)
                ==> #[trigger] pixel_ok(out, data, width, x, y),
{
    assert forall|x2: int, y2: int|
        0 <= x2 < height && 0 <= y2 < width && visited(x2, y2, row + 1, 0, 0, 0)
        implies #[trigger] pixel_ok(out, data, width, x2, y2) by {
        lemma_tile_of_pixel(width, y2);
        assert(visited(x2, y2, row, spec_grid_dim(width), 0, 0));
    }
}

/// A walk that finished every block row has written every pixel of the
/// image.
proof fn lemma_walk_complete(out: Seq<u8>, data: Seq<u8>, width: u32, height: u32)
    requires
        forall|x: int, y: int|
            0 <= x < height && 0 <= y < width && visited(x, y, spec_grid_dim(height), 0, 0, 0)
                ==> #[trigger] pixel_ok(out, data, width, x, y),
    ensures
        forall|x: int, y: int|
            0 <= x < height && 0 <= y < width ==> #[trigger] pixel_ok(out, data, width, x, y),
{
    assert forall|x2: int, y2: int| 0 <= x2 < height && 0 <= y2 < width implies #[trigger] pixel_ok(
        out,
        data,
        width,
        x2,
        y2,
    ) by {
        lemma_tile_of_pixel(height, x2);
        assert(visited(x2, y2, spec_grid_dim(height), 0, 0, 0));
    }
}

/// Decodes one block into the pixels of its 4x4 tile, clipping writes to
/// the image bounds: after the call every pixel of tiles up to and including
/// `(row, col)` holds its decoded color.
#[verifier::loop_isolation(false)]
#[verifier::rlimit(100)]
fn decode_block(
    data: &[u8],
    width: u32,
    height: u32,
    output: &mut Vec<u8>,
    row: u32,
    col: u32,
    cols: u32,
)
    requires
        data@.len() >= spec_grid_dim(width) * spec_grid_dim(height) * 8,
        data@.len() <= usize::MAX,
        old(output)@.len() == width * height * 3,
        width * height * 3 <= usize::MAX,
        cols == spec_grid_dim(width),
        row < spec_grid_dim(height),
        col < cols,
        forall|x: int, y: int|
            0 <= x < height && 0 <= y < width && visited(x, y, row as int, col as int, 0, 0)
                ==> #[trigger] pixel_ok(old(output)@, data@, width, x, y),
    ensures
        final(output)@.len() == old(output)@.len(),
        forall|x: int, y: int|
            0 <= x < height && 0 <= y < width && visited(x, y, row as int, col as int + 1, 0, 0)
                ==> #[trigger] pixel_ok(final(output)@, data@, width, x, y),
{
    proof {
        lemma_grid_covers(width);
        lemma_grid_covers(height);
        lemma_block_in_range(width, height, row as int, col as int, data@.len() as int);
    }
    let bi: usize = (row as usize) * (cols as usize) + (col as usize);
    let block = read_block(data, bi);
    let colors = block.colors();

    let mut ox: u32 = 0;
    while ox < 4
        invariant
            ox <= 4,
            output@.len() == width * height * 3,
            forall|x: int, y: int|
                0 <= x < height && 0 <= y < width && visited(
                    x,
                    y,
                    row as int,
                    col as int,
                    ox as int,
                    0,
                ) ==> #[trigger] pixel_ok(output@, data@, width, x, y),
        decreases 4 - ox,
    {
        let mut oy: u32 = 0;
        while oy < 4
            invariant
                oy <= 4,
                ox < 4,
                output@.len() == width * height * 3,
                forall|x: int, y: int|
                    0 <= x < height && 0 <= y < width && visited(
                        x,
                        y,
                        row as int,
                        col as int,
                        ox as int,
                        oy as int,
                    ) ==> #[trigger] pixel_ok(output@, data@, width, x, y),
            decreases 4 - oy,
        {
            let n: u32 = ox * 4 + oy;
            let shifted: u32 = block.indices >> (2 * n);
            let sel: u32 = shifted & 3;
            proof {
                lemma_mask_lt_4(shifted);
            }
            let px: u32 = row * 4 + ox;
            let py: u32 = col * 4 + oy;
            let ghost pre = output@;
            if px < height && py < width {
                proof {
                    lemma_pix_in_range(width, height, px as int, py as int);
                }
                set_pixel(output, width, px, py, colors[sel as usize]);
                proof {
                    lemma_fundamental_div_mod_converse(px as int, 4, row as int, ox as int);
                    lemma_fundamental_div_mod_converse(py as int, 4, col as int, oy as int);
                    assert(pixel_ok(output@, data@, width, px as int, py as int)) by {
                        reveal(spec_decoded_pixel);
                        assert(sel == spec_sel(block.indices, n as int));
                    }
                    lemma_after_write(
                        pre,
                        output@,
                        data@,
                        width,
                        height,
                        row as int,
                        col as int,
                        ox as int,
                        oy as int,
                        px as int,
                        py as int,
                    );
                }
            } else {
                proof {
                    lemma_after_clip(
                        output@,
                        data@,
                        width,
                        height,
                        row as int,
                        col as int,
                        ox as int,
                        oy as int,
                        px as int,
                        py as int,
                    );
                }
            }
            oy = oy + 1;
        }
        proof {
            lemma_next_tile_row(
                output@,
                data@,
                width,
                height,
                row as int,
                col as int,
                ox as int,
            );
        }
        ox = ox + 1;
    }
    proof {
        lemma_next_tile(output@, data@, width, height, row as int, col as int);
    }
}

/// Walks the block grid in row-major order and writes every pixel that
/// falls inside the `width * height` image; pixels of edge tiles that stick
/// out past the image are decoded but discarded.
#[verifier::loop_isolation(false)]
fn decode_internal(data: &[u8], width: u32, height: u32, output: &mut Vec<u8>)
    requires
        data@.len() >= spec_grid_dim(width) * spec_grid_dim(height) * 8,
        old(output)@.len() == width * height * 3,
        width * height * 3 <= usize::MAX,
    ensures
        final(output)@.len() == old(output)@.len(),
        forall|x: int, y: int|
            0 <= x < height && 0 <= y < width ==> #[trigger] pixel_ok(
                final(output)@,
                data@,
                width,
                x,
                y,
            ),
{
    proof {
        broadcast use vstd::slice::axiom_spec_len;

        assert(vstd::slice::spec_slice_len(data) == data@.len());
    }
    let cols = columns(width);
    let rws = rows(height);

    let mut row: u32 = 0;
    while row < rws
        invariant
            row <= rws,
            output@.len() == width * height * 3,
            forall|x: int, y: int|
                0 <= x < height && 0 <= y < width && visited(x, y, row as int, 0, 0, 0)
                    ==> #[trigger] pixel_ok(output@, data@, width, x, y),
        decreases rws - row,
    {
        let mut col: u32 = 0;
        while col < cols
            invariant
                col <= cols,
                output@.len() == width * height * 3,
                forall|x: int, y: int|
                    0 <= x < height && 0 <= y < width && visited(
                        x,
                        y,
                        row as int,
                        col as int,
                        0,
                        0,
                    ) ==> #[trigger] pixel_ok(output@, data@, width, x, y),
            decreases cols - col,
        {
            decode_block(data, width, height, output, row, col, cols);
            col = col + 1;
        }
        proof {
            lemma_next_block_row(output@, data@, width, height, row as int);
        }
        row = row + 1;
    }
    proof {
        lemma_walk_complete(output@, data@, width, height);
    }
}

/// The exact size of the RGB888 raster for a `width` by `height` image:
/// three bytes for each pixel.
fn calculate_output_len(width: u32, height: u32) -> (r: usize)
    requires
        width * height * 3 <= usize::MAX,
    ensures
        r == width * height * 3,
{
    (width as usize) * (height as usize) * 3
}

/// Decodes an image compressed with the BC1 algorithm.
///
/// `data` is the block stream covering the full tile grid of a `width` by
/// `height` image; the result is the image's raster, three bytes per pixel,
/// in which every pixel holds the color its block assigns to it.  The only
/// failure is a stream whose length is not a multiple of the block size.
pub fn decode(data: &[u8], width: u32, height: u32) -> (r: Result<Vec<u8>, Error>)
    requires
        data@.len() % 8 == 0 ==> data@.len() >= spec_grid_dim(width) * spec_grid_dim(height) * 8,
        width * height * 3 <= usize::MAX,
    ensures
        data@.len() % 8 != 0 ==> (r matches Err(e) && e matches Error::FormatError(_)),
        data@.len() % 8 == 0 ==> (r matches Ok(out) && out@.len() == width * height * 3 && forall|
            x: int,
            y: int,
        |
            0 <= x < height && 0 <= y < width ==> pixel_ok(out@, data@, width, x, y)),
{
    if data.len() % BLOCK_SIZE != 0 {
        return Err(
            Error::FormatError(
                "Length of BC1 data to decode is not a multiple of the block size.".to_owned(),
            ),
        );
    }

    let output_len = calculate_output_len(width, height);
    let mut output: Vec<u8> = Vec::new();
    while output.len() < output_len
        invariant
            output@.len() <= output_len,
        decreases output_len - output@.len(),
    {
        output.push(0);
    }

    decode_internal(data, width, height, &mut output);

    Ok(output)
}

impl R8G8B8 {
    /// Packs the three channels into a u32, red in the low byte.
    pub fn as_u32(&self) -> (r: u32)
        ensures
            r == self.0 + self.1 * 0x100 + self.2 * 0x1_0000,
    {
        (self.0 as u32) + (self.1 as u32) * 0x100 + (self.2 as u32) * 0x1_0000
    }
}

} // verus!

