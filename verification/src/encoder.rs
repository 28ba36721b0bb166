//! From an image to container bytes: the header, then one group of hexadecimal
//! digits for each pixel in raster scan order.

use vstd::prelude::*;
use vstd::slice::slice_subrange;
use crate::decoder::NEWLINE;
use crate::header::{ByteOrder, header_bytes, host_byte_order, write_header};
use crate::hex::{encode_channels, hex_text};
use crate::pixel_buffer::{PixelBuffer, Raster};

verus! {

/// How the body is written.
#[derive(Debug, Clone, Copy, PartialEq, Eq, Structural)]
pub enum EncodeMode {
    /// Eight digits for each pixel and nothing else. Decoding gives the image back.
    RgbaCompact,
    /// Six digits for each pixel and a newline after each row. Alpha is not
    /// written: decoding gives the image back with every pixel fully opaque.
    RgbRows,
}

/// What follows the group of the `count`-th pixel in rows mode: a newline where
/// that pixel ends a row, and nothing elsewhere.
pub open spec fn row_end(width: u32, count: nat) -> Seq<u8> {
    if width > 0 && count % (width as nat) == 0 {
        seq![NEWLINE]
    } else {
        Seq::empty()
    }
}

/// The red, green and blue channels of the pixel at `index`.
pub open spec fn rgb_of(channels: Seq<u8>, index: int) -> Seq<u8> {
    channels.subrange(4 * index, 4 * index + 3)
}

/// The rows-mode text of the first `count` pixels: the text of the pixels before
/// the last, the six digits of the last, and a newline if it ends a row.
pub open spec fn rgb_rows_text(raster: Raster, count: nat) -> Seq<u8>
    decreases count,
{
    if count == 0 {
        Seq::empty()
    } else {
        rgb_rows_text(raster, (count - 1) as nat) + hex_text(rgb_of(raster.channels, count - 1))
            + row_end(raster.width, count)
    }
}

/// The body of an image in the given mode.
pub open spec fn body_bytes(mode: EncodeMode, raster: Raster) -> Seq<u8> {
    match mode {
        EncodeMode::RgbaCompact => hex_text(raster.channels),
        EncodeMode::RgbRows => rgb_rows_text(raster, raster.pixel_count()),
    }
}

/// The container of an image: its header in the given byte order, then its body
/// in the given mode.
pub open spec fn container_bytes(order: ByteOrder, mode: EncodeMode, raster: Raster) -> Seq<u8> {
    header_bytes(order, raster.width, raster.height) + body_bytes(mode, raster)
}

/// The body of the first `count` pixels of an image in the given mode.
pub open spec fn body_prefix(mode: EncodeMode, raster: Raster, count: nat) -> Seq<u8> {
    match mode {
        EncodeMode::RgbaCompact => hex_text(raster.channels.take(4 * count as int)),
        EncodeMode::RgbRows => rgb_rows_text(raster, count),
    }
}

/// Appends `extra` to `bytes`.
pub fn append(bytes: &mut Vec<u8>, extra: &[u8])
    ensures
        final(bytes)@ == old(bytes)@ + extra@,
{
    let mut i: usize = 0;
    while i < extra.len()
        invariant
            i <= extra@.len(),
            bytes@ == old(bytes)@ + extra@.take(i as int),
        decreases extra@.len() - i,
    {
        bytes.push(extra[i]);
        i = i + 1;
        assert(bytes@ =~= old(bytes)@ + extra@.take(i as int));
    }
    assert(extra@.take(i as int) =~= extra@);
}

/// Encodes an image as container bytes, with the header in the given byte order
/// and the body in the given mode.
pub fn encode(image: &PixelBuffer, mode: EncodeMode, order: ByteOrder) -> (bytes: Vec<u8>)
    ensures
        bytes@ == container_bytes(order, mode, image@),
{
    let channels = image.channels();
    let width = image.width();
    let header = write_header(width, image.height(), order);
    let mut bytes: Vec<u8> = Vec::new();
    append(&mut bytes, header.as_slice());
    let count = channels.len() / 4;
    let taken: usize = match mode {
        EncodeMode::RgbaCompact => 4,
        EncodeMode::RgbRows => 3,
    };
    let mut k: usize = 0;
    assert(bytes@ =~= header@ + body_prefix(mode, image@, 0));
    while k < count
        invariant
            k <= count,
            count * 4 == channels@.len(),
            channels@.len() <= usize::MAX,
            count == image@.pixel_count(),
            channels@ == image@.channels,
            width == image@.width,
            taken == match mode {
                EncodeMode::RgbaCompact => 4usize,
                EncodeMode::RgbRows => 3usize,
            },
            bytes@ == header@ + body_prefix(mode, image@, k as nat),
        decreases count - k,
    {
        let pixel = slice_subrange(channels, 4 * k, 4 * k + taken);
        let group = encode_channels(pixel);
        append(&mut bytes, group.as_slice());
        if mode == EncodeMode::RgbRows && width > 0 && (k + 1) % (width as usize) == 0 {
            bytes.push(NEWLINE);
        }
        k = k + 1;
        proof {
            match mode {
                EncodeMode::RgbaCompact => {
                    assert(hex_text(channels@.take(4 * k)) =~= hex_text(
                        channels@.take(4 * (k - 1)),
                    ) + hex_text(pixel@));
                },
                EncodeMode::RgbRows => {
                    assert(pixel@ == rgb_of(image@.channels, k - 1));
                },
            }
            assert(bytes@ =~= header@ + body_prefix(mode, image@, k as nat));
        }
    }
    assert(channels@.take(4 * k) =~= channels@);
    bytes
}

/// Encodes an image as container bytes, with the header in the byte order of the
/// running machine. Whichever order that is, the result is that of [`encode`] in
/// it.
pub fn encode_native(image: &PixelBuffer, mode: EncodeMode) -> (bytes: Vec<u8>)
    ensures
        bytes@ == container_bytes(ByteOrder::Little, mode, image@) || bytes@ == container_bytes(
            ByteOrder::Big,
            mode,
            image@,
        ),
{
    encode(image, mode, host_byte_order())
}

} // verus!
