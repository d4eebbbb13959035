//! Reader for the DDS (Direct Draw Surface) container format.
//!
//! A DDS stream opens with the 4-byte magic `"DDS "`, followed by a fixed
//! 124-byte header of little-endian fields.  The header declares its own
//! size, the image dimensions, and a nested 32-byte pixel-format structure
//! that in turn declares its own size, a flag word, and a four-character
//! compression code.  Both declared sizes are checked against the fixed
//! layout before any other field is trusted.  The pixel data follows the
//! header: either raw RGB rows, or an opaque block-compressed payload when
//! the pixel format carries a four-character code.

use vstd::arithmetic::mul::lemma_mul_upper_bound;
use vstd::prelude::*;
use vstd::slice::{slice_subrange, slice_to_vec};

use crate::bytes::{le32, read_le32};
use crate::error::{unexpected_eof, Error};

verus! {

/// The bytes a DDS stream must start with: the ASCII literal `"DDS "`.
pub open spec fn spec_magic_ok(d: Seq<u8>) -> bool {
    &&& d.len() >= 4
    &&& d[0] == 0x44u8
    &&& d[1] == 0x44u8
    &&& d[2] == 0x53u8
    &&& d[3] == 0x20u8
}

/// The stream holds the magic and the whole 124-byte header.
pub open spec fn spec_prefix_ok(d: Seq<u8>) -> bool {
    spec_magic_ok(d) && d.len() >= 128
}

/// The header's declared size, stored right after the magic.
pub open spec fn spec_header_size(d: Seq<u8>) -> int {
    le32(d, 4)
}

/// The image height in pixels.
pub open spec fn spec_height(d: Seq<u8>) -> int {
    le32(d, 12)
}

/// The image width in pixels.
pub open spec fn spec_width(d: Seq<u8>) -> int {
    le32(d, 16)
}

/// The declared size of the nested pixel-format structure.
pub open spec fn spec_pf_size(d: Seq<u8>) -> int {
    le32(d, 76)
}

/// The pixel-format flag word.
pub open spec fn spec_pf_flags(d: Seq<u8>) -> int {
    le32(d, 80)
}

/// Both declared sizes equal the fixed layout: 124 bytes of header, 32 of
/// pixel format.
pub open spec fn spec_sizes_ok(d: Seq<u8>) -> bool {
    spec_header_size(d) == 124 && spec_pf_size(d) == 32
}

/// Bit 2 of the pixel-format flags: the format carries a four-character
/// compression code.
pub open spec fn spec_has_four_cc(d: Seq<u8>) -> bool {
    (spec_pf_flags(d) / 4) % 2 == 1
}

/// The four-character code spells `"DXT1"`, the only compression in scope.
pub open spec fn spec_four_cc_is_dxt1(d: Seq<u8>) -> bool {
    &&& d[84] == 0x44u8
    &&& d[85] == 0x58u8
    &&& d[86] == 0x54u8
    &&& d[87] == 0x31u8
}

/// Bits 0 and 1 of the pixel-format flags: the uncompressed data carries an
/// alpha channel.
pub open spec fn spec_has_alpha(d: Seq<u8>) -> bool {
    spec_pf_flags(d) % 4 != 0
}

/// Bits per pixel of an uncompressed stream: 32 with alpha, 24 without.
pub open spec fn spec_bits_per_pixel(d: Seq<u8>) -> int {
    if spec_has_alpha(d) {
        32
    } else {
        24
    }
}

/// The exact byte count of an uncompressed pixel payload.
pub open spec fn spec_payload_len(d: Seq<u8>) -> int {
    spec_width(d) * spec_height(d) * (spec_bits_per_pixel(d) / 8)
}

/// The pixel layout of a texture's payload.
#[derive(Copy, Clone, PartialEq, Eq, Structural, Debug)]
pub enum TextureFormat {
    /// Raw RGB rows, three bytes per pixel.
    Uncompressed24,
    /// Raw RGBA rows, four bytes per pixel.
    Uncompressed32,
    /// A BC1 block stream, to be expanded by the block decoder.
    BC1,
}

/// A texture loaded from a DDS file.
#[derive(Debug)]
pub struct Texture {
    /// The image width in pixels.
    pub width: u32,
    /// The image height in pixels.
    pub height: u32,
    /// How the payload encodes its pixels.
    pub format: TextureFormat,
    /// The pixel payload: raw rows, or a BC1 block stream.
    pub data: Vec<u8>,
}

impl Texture {
    /// Returns the width and height of the texture.
    pub fn dimensions(&self) -> (r: (u32, u32))
        ensures
            r.0 == self.width,
            r.1 == self.height,
    {
        (self.width, self.height)
    }

    /// Returns a slice of the raw bytes of the texture.
    pub fn as_raw(&self) -> (r: &[u8])
        ensures
            r@ == self.data@,
    {
        self.data.as_slice()
    }
}

/// Reads a DDS file from the bytes of its stream.
///
/// The magic is checked first, then the header's declared size, then the
/// pixel format's, each failing closed with a malformed-data error before
/// any later field is trusted.  A stream too short for the magic, the
/// header, or the computed payload fails with a stream error instead.  On
/// success the texture carries the header's dimensions and either the
/// trailing block stream (for the `"DXT1"` code) or exactly
/// `width * height * bytes_per_pixel` bytes of raw pixels.
pub fn read(data: &[u8]) -> (r: Result<Texture, Error>)
    ensures
        data@.len() < 4 ==> (r matches Err(Error::IoError(_))),
        data@.len() >= 4 && !spec_magic_ok(data@) ==> (r matches Err(Error::FormatError(_))),
        spec_magic_ok(data@) && data@.len() < 128 ==> (r matches Err(Error::IoError(_))),
        spec_prefix_ok(data@) && spec_header_size(data@) != 124 ==> (r matches Err(
            Error::FormatError(_),
        )),
        spec_prefix_ok(data@) && spec_header_size(data@) == 124 && spec_pf_size(data@) != 32 ==> (r
            matches Err(Error::FormatError(_))),
        spec_prefix_ok(data@) && spec_sizes_ok(data@) && spec_has_four_cc(data@)
            && !spec_four_cc_is_dxt1(data@) ==> (r matches Err(Error::FormatError(_))),
        spec_prefix_ok(data@) && spec_sizes_ok(data@) && spec_has_four_cc(data@)
            && spec_four_cc_is_dxt1(data@) ==> (r matches Ok(t) && t.width == spec_width(data@)
            && t.height == spec_height(data@) && t.format == TextureFormat::BC1 && t.data@
            == data@.subrange(128, data@.len() as int)),
        spec_prefix_ok(data@) && spec_sizes_ok(data@) && !spec_has_four_cc(data@) && data@.len()
            >= 128 + spec_payload_len(data@) ==> (r matches Ok(t) && t.width == spec_width(data@)
            && t.height == spec_height(data@) && t.format == (if spec_has_alpha(data@) {
            TextureFormat::Uncompressed32
        } else {
            TextureFormat::Uncompressed24
        }) && t.data@ == data@.subrange(128, 128 + spec_payload_len(data@))),
        spec_prefix_ok(data@) && spec_sizes_ok(data@) && !spec_has_four_cc(data@) && data@.len()
            < 128 + spec_payload_len(data@) ==> (r matches Err(Error::IoError(_))),
{
    if data.len() < 4 {
        return Err(Error::IoError(unexpected_eof()));
    }
    if !(data[0] == 0x44 && data[1] == 0x44 && data[2] == 0x53 && data[3] == 0x20) {
        return Err(Error::FormatError("DDS magic number not found".to_owned()));
    }
    if data.len() < 128 {
        return Err(Error::IoError(unexpected_eof()));
    }

    let header_size = read_le32(data, 4);
    if header_size != 124 {
        return Err(Error::FormatError(crate::error::size_mismatch_message("Header", 124, header_size)));
    }

    let pf_size = read_le32(data, 76);
    if pf_size != 32 {
        return Err(
            Error::FormatError(crate::error::size_mismatch_message("Pixel format data", 32, pf_size)),
        );
    }

    let height = read_le32(data, 12);
    let width = read_le32(data, 16);
    let pf_flags = read_le32(data, 80);

    if (pf_flags / 4) % 2 == 1 {
        // A four-character compression code names the payload's encoding.
        if data[84] == 0x44 && data[85] == 0x58 && data[86] == 0x54 && data[87] == 0x31 {
            let payload = slice_to_vec(slice_subrange(data, 128, data.len()));
            Ok(Texture { width, height, format: TextureFormat::BC1, data: payload })
        } else {
            Err(Error::FormatError("Unsupported compression format code.".to_owned()))
        }
    } else {
        let has_alpha = pf_flags % 4 != 0;
        let bpp: u32 = if has_alpha {
            32
        } else {
            24
        };

        proof {
            lemma_mul_upper_bound(width as int, 0xFFFF_FFFF, height as int, 0xFFFF_FFFF);
            lemma_mul_upper_bound(
                width as int * height as int,
                0xFFFF_FFFFint * 0xFFFF_FFFFint,
                bpp as int / 8,
                4,
            );
        }
        let needed: u128 = (width as u128) * (height as u128) * ((bpp / 8) as u128);
        let remaining: u128 = (data.len() - 128) as u128;
        if remaining < needed {
            return Err(Error::IoError(unexpected_eof()));
        }
        let n = needed as usize;
        let payload = slice_to_vec(slice_subrange(data, 128, 128 + n));
        let format = if has_alpha {
            TextureFormat::Uncompressed32
        } else {
            TextureFormat::Uncompressed24
        };
        Ok(Texture { width, height, format, data: payload })
    }
}

} // verus!
