//! From container bytes to an image, with every check that the format calls for.
//!
//! A container is a header and a body. The body is text: one group of hexadecimal
//! digits for each pixel, eight digits with alpha or six without, with newlines
//! anywhere between. Which of the two shapes a body has is read off its length.

use vstd::prelude::*;
use vstd::slice::slice_subrange;
use crate::error::CodecError;
use crate::header::{ByteOrder, header_size, host_byte_order, read_header, HEADER_LEN};
use crate::hex::{decode_group, group_pixel};
use crate::pixel_buffer::{PixelBuffer, Raster};

verus! {

/// The newline byte.
pub const NEWLINE: u8 = 0x0A;

/// The shape of a body, settled once from its length.
#[derive(Debug, Clone, Copy, PartialEq, Eq, Structural)]
pub enum BodyShape {
    /// Eight digits for each pixel: red, green, blue, alpha.
    Rgba,
    /// Six digits for each pixel: red, green, blue. Every pixel is fully opaque.
    Rgb,
}

impl BodyShape {
    /// Number of digits in one group of this shape.
    pub open spec fn group_len(self) -> nat {
        match self {
            BodyShape::Rgba => 8,
            BodyShape::Rgb => 6,
        }
    }

    /// Number of digits in one group of this shape.
    pub fn group_size(self) -> (size: usize)
        ensures
            size == self.group_len(),
    {
        match self {
            BodyShape::Rgba => 8,
            BodyShape::Rgb => 6,
        }
    }
}

/// `text` with every newline taken out.
pub open spec fn without_newlines(text: Seq<u8>) -> Seq<u8> {
    text.filter(|b: u8| b != NEWLINE)
}

/// Every byte of `raw` is below 128.
pub open spec fn is_ascii_text(raw: Seq<u8>) -> bool {
    forall|i: int| 0 <= i < raw.len() ==> #[trigger] raw[i] < 0x80
}

/// The UTF-8 bytes of the string that `String::from_utf8_lossy` of std makes of
/// `raw`: `raw` itself where it is valid UTF-8, and otherwise `raw` with each
/// invalid sequence replaced by the three bytes of U+FFFD.
pub uninterp spec fn utf8_lossy(raw: Seq<u8>) -> Seq<u8>;

/// The text that the bytes after a header are read as. ASCII bytes are their own
/// text; anything else goes through the lossy UTF-8 reading.
pub open spec fn body_text(raw: Seq<u8>) -> Seq<u8> {
    if is_ascii_text(raw) {
        raw
    } else {
        utf8_lossy(raw)
    }
}

/// The shape of a body of `len` digits for an image of the given size. A length
/// that fits neither shape is a `LengthMismatch`, which reports the length of the
/// eight-digit shape as expected.
pub open spec fn body_shape(width: u32, height: u32, len: nat) -> Result<BodyShape, CodecError> {
    if len == width * height * 8 {
        Ok(BodyShape::Rgba)
    } else if len == width * height * 6 {
        Ok(BodyShape::Rgb)
    } else {
        Err(
            CodecError::LengthMismatch {
                expected: (width * height * 8) as u128,
                actual: len as usize,
            },
        )
    }
}

/// The `k`-th group of `size` digits in `body`.
pub open spec fn group_at(body: Seq<u8>, size: nat, k: int) -> Seq<u8> {
    body.subrange(k * size, k * size + size)
}

/// Each of the first `count` groups of `body` decodes to a pixel.
pub open spec fn groups_decode(body: Seq<u8>, size: nat, count: nat) -> bool {
    forall|k: int| 0 <= k < count ==> (#[trigger] group_pixel(group_at(body, size, k))) is Ok
}

/// The channel at `index` of a pixel: red, green, blue, alpha.
pub open spec fn pixel_channel(pixel: (u8, u8, u8, u8), index: int) -> u8 {
    if index == 0 {
        pixel.0
    } else if index == 1 {
        pixel.1
    } else if index == 2 {
        pixel.2
    } else {
        pixel.3
    }
}

/// The channels of the first `count` groups of `body`, four for each group, in
/// order.
pub open spec fn body_channels(body: Seq<u8>, size: nat, count: nat) -> Seq<u8> {
    Seq::new(
        4 * count,
        |i: int| pixel_channel(group_pixel(group_at(body, size, i / 4)).unwrap(), i % 4),
    )
}

/// The image that a body with no newlines left in it holds, for the size its
/// header announced. The length settles the shape or is a `LengthMismatch`; then
/// every group must decode, or the body is `MalformedHex`.
pub open spec fn body_raster(width: u32, height: u32, body: Seq<u8>) -> Result<Raster, CodecError> {
    match body_shape(width, height, body.len()) {
        Err(e) => Err(e),
        Ok(shape) => if groups_decode(body, shape.group_len(), (width * height) as nat) {
            Ok(
                Raster {
                    width,
                    height,
                    channels: body_channels(body, shape.group_len(), (width * height) as nat),
                },
            )
        } else {
            Err(CodecError::MalformedHex)
        },
    }
}

/// The image that container bytes hold when their header is read in the given
/// order, or the failure that reading them ends in.
pub open spec fn container_raster(order: ByteOrder, bytes: Seq<u8>) -> Result<Raster, CodecError> {
    match header_size(order, bytes) {
        Err(e) => Err(e),
        Ok((width, height)) => body_raster(
            width,
            height,
            without_newlines(body_text(bytes.skip(HEADER_LEN as int))),
        ),
    }
}

/// A decoding result as a mathematical value.
pub open spec fn decoded(result: Result<PixelBuffer, CodecError>) -> Result<Raster, CodecError> {
    match result {
        Ok(buffer) => Ok(buffer@),
        Err(e) => Err(e),
    }
}

/// `String::from_utf8_lossy` of std, and the bytes of the string it returns. The
/// contract gives that result its name, and claims that bytes which are all ASCII
/// come back as they are: they are valid UTF-8, which the function leaves alone.
#[verifier::external_body]
fn lossy_text(raw: &[u8]) -> (text: Vec<u8>)
    ensures
        text@ == utf8_lossy(raw@),
        is_ascii_text(raw@) ==> text@ == raw@,
{
    String::from_utf8_lossy(raw).into_owned().into_bytes()
}

/// Takes every newline out of `text`.
pub fn strip_newlines(text: &[u8]) -> (body: Vec<u8>)
    ensures
        body@ == without_newlines(text@),
{
    let mut body: Vec<u8> = Vec::new();
    let mut i: usize = 0;
    while i < text.len()
        invariant
            i <= text@.len(),
            body@ == without_newlines(text@.take(i as int)),
        decreases text@.len() - i,
    {
        proof {
            reveal(Seq::filter);
            assert(text@.take(i + 1).drop_last() =~= text@.take(i as int));
        }
        if text[i] != NEWLINE {
            body.push(text[i]);
        }
        i = i + 1;
    }
    proof {
        reveal(Seq::filter);
        assert(text@.take(i as int) =~= text@);
    }
    body
}

/// Settles the shape of a body of `len` digits for an image of the given size.
pub fn shape_of(width: u32, height: u32, len: usize) -> (shape: Result<BodyShape, CodecError>)
    ensures
        shape == body_shape(width, height, len as nat),
{
    assert(width * height * 8 <= u128::MAX && width * height <= u128::MAX) by (nonlinear_arith)
        requires
            width <= u32::MAX,
            height <= u32::MAX,
    ;
    let pixels: u128 = (width as u128) * (height as u128);
    if len as u128 == pixels * 8 {
        Ok(BodyShape::Rgba)
    } else if len as u128 == pixels * 6 {
        Ok(BodyShape::Rgb)
    } else {
        Err(CodecError::LengthMismatch { expected: pixels * 8, actual: len })
    }
}

/// Decodes a body that has no newlines left in it, for the size that its header
/// announced.
pub fn decode_body(width: u32, height: u32, body: &[u8]) -> (image: Result<PixelBuffer, CodecError>)
    ensures
        decoded(image) == body_raster(width, height, body@),
{
    let shape = match shape_of(width, height, body.len()) {
        Ok(shape) => shape,
        Err(e) => {
            return Err(e);
        },
    };
    let size = shape.group_size();
    let count = body.len() / size;
    assert(count == width * height && count * size == body@.len()) by (nonlinear_arith)
        requires
            size == 6 || size == 8,
            body@.len() == width * height * size,
            count == body@.len() / (size as nat),
    ;
    let mut channels: Vec<u8> = Vec::new();
    let mut k: usize = 0;
    while k < count
        invariant
            k <= count,
            size == shape.group_len(),
            count * size == body@.len(),
            count == width * height,
            body_shape(width, height, body@.len()) == Ok::<BodyShape, CodecError>(shape),
            body@.len() <= usize::MAX,
            groups_decode(body@, size as nat, k as nat),
            channels@ == body_channels(body@, size as nat, k as nat),
        decreases count - k,
    {
        assert(0 <= k * size && k * size + size <= count * size) by (nonlinear_arith)
            requires
                0 <= k < count,
                size > 0,
        ;
        let start = k * size;
        let group = slice_subrange(body, start, start + size);
        assert(group@ == group_at(body@, size as nat, k as int));
        match decode_group(group) {
            Ok((r, g, b, a)) => {
                channels.push(r);
                channels.push(g);
                channels.push(b);
                channels.push(a);
            },
            Err(e) => {
                assert(!groups_decode(body@, size as nat, count as nat)) by {
                    assert(group_pixel(group_at(body@, size as nat, k as int)) is Err);
                }
                return Err(e);
            },
        }
        k = k + 1;
        assert(channels@ =~= body_channels(body@, size as nat, k as nat));
    }
    let image = PixelBuffer::new(width, height, channels);
    image
}

/// Decodes the text of a body: takes its newlines out, then decodes what is left
/// for the size that the header announced.
pub fn decode_text(width: u32, height: u32, text: &[u8]) -> (image: Result<PixelBuffer, CodecError>)
    ensures
        decoded(image) == body_raster(width, height, without_newlines(text@)),
{
    let body = strip_newlines(text);
    decode_body(width, height, body.as_slice())
}

/// Decodes container bytes whose header is in the given byte order.
///
/// Fails with `TruncatedHeader` on fewer than eight bytes, with `LengthMismatch`
/// where the body fits neither shape, and with `MalformedHex` where a group does
/// not decode. On failure no part of an image is returned.
pub fn decode(bytes: &[u8], order: ByteOrder) -> (image: Result<PixelBuffer, CodecError>)
    ensures
        decoded(image) == container_raster(order, bytes@),
{
    let (width, height) = match read_header(bytes, order) {
        Ok(size) => size,
        Err(e) => {
            return Err(e);
        },
    };
    let raw = slice_subrange(bytes, HEADER_LEN, bytes.len());
    assert(raw@ =~= bytes@.skip(HEADER_LEN as int));
    let text = lossy_text(raw);
    decode_text(width, height, text.as_slice())
}

/// Decodes container bytes whose header is in the byte order of the running
/// machine. Whichever order that is, the result is that of [`decode`] in it.
pub fn decode_native(bytes: &[u8]) -> (image: Result<PixelBuffer, CodecError>)
    ensures
        decoded(image) == container_raster(ByteOrder::Little, bytes@) || decoded(image)
            == container_raster(ByteOrder::Big, bytes@),
{
    decode(bytes, host_byte_order())
}

} // verus!
