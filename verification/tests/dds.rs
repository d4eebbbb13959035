use block_compression::format::dds::{read, TextureFormat};
use block_compression::Error;

fn put_le32(buf: &mut [u8], off: usize, v: u32) {
    buf[off] = (v & 0xFF) as u8;
    buf[off + 1] = ((v >> 8) & 0xFF) as u8;
    buf[off + 2] = ((v >> 16) & 0xFF) as u8;
    buf[off + 3] = ((v >> 24) & 0xFF) as u8;
}

/// A well-formed magic-plus-header prefix: 128 bytes with the given
/// dimensions, pixel-format flags and four-character code.
fn dds_prefix(width: u32, height: u32, pf_flags: u32, four_cc: &[u8; 4]) -> Vec<u8> {
    let mut buf = vec![0u8; 128];
    buf[0..4].copy_from_slice(b"DDS ");
    put_le32(&mut buf, 4, 124);
    put_le32(&mut buf, 12, height);
    put_le32(&mut buf, 16, width);
    put_le32(&mut buf, 76, 32);
    put_le32(&mut buf, 80, pf_flags);
    buf[84..88].copy_from_slice(four_cc);
    buf
}

const PF_HAS_ALPHA: u32 = 0x1;
const PF_FOUR_CC: u32 = 0x4;
const PF_RGB: u32 = 0x40;

#[test]
fn fail_magic_number() {
    let data = "not dds";

    let result = read(data.as_bytes());

    assert!(result.is_err());
}

#[test]
fn fail_not_enough_data() {
    let data = "DDS 1234";

    let result = read(data.as_bytes());

    assert!(result.is_err());
}

#[test]
fn fail_wrong_size() {
    let mut hdr = vec![0u8; 128];
    hdr[0..4].copy_from_slice(b"DDS ");
    // The header declares 10 bytes instead of its fixed size.
    put_le32(&mut hdr, 4, 10);

    {
        let result = read(&hdr);

        assert!(result.is_err());
    }

    // The nested pixel format declares 31 bytes instead of its fixed size.
    put_le32(&mut hdr, 76, 31);

    {
        let result = read(&hdr);

        assert!(result.is_err());
    }
}

#[test]
fn bad_magic_is_a_format_error() {
    let err = read("not dds!".as_bytes()).unwrap_err();
    assert!(matches!(err, Error::FormatError(_)));
}

#[test]
fn empty_stream_is_a_stream_error() {
    let err = read(&[]).unwrap_err();
    assert!(matches!(err, Error::IoError(_)));
}

#[test]
fn short_header_is_a_stream_error() {
    let err = read("DDS 1234".as_bytes()).unwrap_err();
    assert!(matches!(err, Error::IoError(_)));
}

#[test]
fn wrong_header_size_is_a_format_error() {
    let mut hdr = dds_prefix(4, 4, PF_RGB, b"\0\0\0\0");
    put_le32(&mut hdr, 4, 10);
    let err = read(&hdr).unwrap_err();
    assert!(matches!(err, Error::FormatError(_)));
}

#[test]
fn wrong_pixel_format_size_is_a_format_error() {
    let mut hdr = dds_prefix(4, 4, PF_RGB, b"\0\0\0\0");
    put_le32(&mut hdr, 76, 31);
    let err = read(&hdr).unwrap_err();
    assert!(matches!(err, Error::FormatError(_)));
}

#[test]
fn unsupported_four_cc_is_a_format_error() {
    let mut stream = dds_prefix(4, 4, PF_FOUR_CC, b"DXT3");
    stream.extend_from_slice(&[0u8; 8]);
    let err = read(&stream).unwrap_err();
    assert!(matches!(err, Error::FormatError(_)));
}

#[test]
fn truncated_payload_is_a_stream_error() {
    let mut stream = dds_prefix(4, 2, PF_RGB, b"\0\0\0\0");
    // 4 * 2 * 3 = 24 bytes are owed; hand over 10.
    stream.extend_from_slice(&[7u8; 10]);
    let err = read(&stream).unwrap_err();
    assert!(matches!(err, Error::IoError(_)));
}

#[test]
fn read_uncompressed() {
    let mut stream = dds_prefix(4, 2, PF_RGB, b"\0\0\0\0");
    let payload: Vec<u8> = (0..24u8).collect();
    stream.extend_from_slice(&payload);
    // Trailing garbage past the computed payload is ignored.
    stream.extend_from_slice(&[0xAA, 0xBB]);

    let texture = read(&stream).unwrap();

    assert_eq!(texture.dimensions(), (4, 2));
    assert_eq!(texture.format, TextureFormat::Uncompressed24);
    assert_eq!(texture.as_raw(), &payload[..]);
    assert_eq!(texture.as_raw().len(), 4 * 2 * 3);
}

#[test]
fn read_uncompressed_with_alpha() {
    let mut stream = dds_prefix(2, 2, PF_RGB | PF_HAS_ALPHA, b"\0\0\0\0");
    let payload: Vec<u8> = (0..16u8).collect();
    stream.extend_from_slice(&payload);

    let texture = read(&stream).unwrap();

    assert_eq!(texture.dimensions(), (2, 2));
    assert_eq!(texture.format, TextureFormat::Uncompressed32);
    assert_eq!(texture.as_raw(), &payload[..]);
}

#[test]
fn read_compressed_bc1() {
    let mut stream = dds_prefix(4, 4, PF_FOUR_CC, b"DXT1");
    // One block: color0 = pure red 565, color1 = pure blue 565, all
    // indices 0.
    let block = [0x00, 0xF8, 0x1F, 0x00, 0x00, 0x00, 0x00, 0x00];
    stream.extend_from_slice(&block);

    let result = read(&stream);

    assert!(result.is_ok());
    let texture = result.unwrap();
    assert_eq!(texture.dimensions(), (4, 4));
    assert_eq!(texture.format, TextureFormat::BC1);
    assert_eq!(texture.as_raw(), &block[..]);

    let raster = block_compression::bc1::decode(texture.as_raw(), 4, 4).unwrap();
    assert_eq!(raster.len(), 4 * 4 * 3);
    // Every pixel picks palette entry 0: the expanded red endpoint.
    assert_eq!(&raster[0..3], &[255, 0, 0]);
    assert_eq!(&raster[45..48], &[255, 0, 0]);
}
