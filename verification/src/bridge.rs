//! Between photographs and containers.
//!
//! A photograph is decoded by the `image` crate; what comes back is read pixel by
//! pixel into a [`PixelBuffer`] and encoded as a container. In the other
//! direction a container is decoded here, and the photographic encoder is handed
//! the image with the layout worked out by [`raster_layout`].

use vstd::prelude::*;
use vstd::arithmetic::div_mod::lemma_fundamental_div_mod_converse;
use vstd::string::StringSliceAdditionalSpecFns;
use vstd::utf8::encode_utf8_decode_utf8;
use crate::decoder::{container_raster, decode, decoded, pixel_channel};
use crate::encoder::{container_bytes, encode, EncodeMode};
use crate::error::CodecError;
use crate::header::ByteOrder;
use crate::pixel_buffer::{channel_count, PixelBuffer, Raster};

verus! {

#[verifier::external_type_specification]
#[verifier::external_body]
pub struct ExDynamicImage(image::DynamicImage);

#[verifier::external_type_specification]
#[verifier::external_body]
pub struct ExImageError(image::ImageError);

/// The size of a photograph, width then height, as `dimensions` of the `image`
/// crate gives it.
pub uninterp spec fn photo_size(photo: image::DynamicImage) -> (u32, u32);

/// The pixels of a photograph by column and row, each as the red, green, blue and
/// alpha that `get_pixel` of the `image` crate gives for it.
pub uninterp spec fn photo_pixels(photo: image::DynamicImage) -> Map<(u32, u32), (u8, u8, u8, u8)>;

/// The size, width then height, of the photograph that
/// `image::load_from_memory_with_format` decodes JPEG bytes to, and `None` for
/// bytes that it does not decode. Whether bytes decode, and to what size, is read
/// off the bytes alone; the colours are not named, since the decoder may compute
/// them in more than one way.
pub uninterp spec fn jpeg_size(bytes: Seq<u8>) -> Option<(u32, u32)>;

/// `image::load_from_memory_with_format` for the JPEG format: decodes the bytes of
/// a photograph. The contract says that it succeeds on the bytes for which
/// [`jpeg_size`] names a size, and that the photograph has that size. Nothing is
/// claimed of its pixels.
#[verifier::external_body]
fn load_jpeg(bytes: &[u8]) -> (photo: Result<image::DynamicImage, image::ImageError>)
    ensures
        match photo {
            Ok(p) => jpeg_size(bytes@) == Some(photo_size(p)),
            Err(_) => jpeg_size(bytes@) is None,
        },
{
    image::load_from_memory_with_format(bytes, image::ImageFormat::Jpeg)
}

/// `GenericImageView::dimensions` on a `DynamicImage`: the contract gives its
/// result the name [`photo_size`].
#[verifier::external_body]
fn dimensions_of(photo: &image::DynamicImage) -> (size: (u32, u32))
    ensures
        size == photo_size(*photo),
{
    image::GenericImageView::dimensions(photo)
}

/// `GenericImageView::get_pixel` on a `DynamicImage`, which gives every pixel as
/// red, green, blue and alpha bytes whatever the photograph stores: the contract
/// says that they are those that [`photo_pixels`] names for that column and row.
/// `get_pixel` panics outside the image, so the column and row must lie inside it.
#[verifier::external_body]
fn pixel_of(photo: &image::DynamicImage, x: u32, y: u32) -> (pixel: (u8, u8, u8, u8))
    requires
        x < photo_size(*photo).0,
        y < photo_size(*photo).1,
    ensures
        pixel == photo_pixels(*photo)[(x, y)],
{
    let rgba = image::GenericImageView::get_pixel(photo, x, y);
    (rgba[0], rgba[1], rgba[2], rgba[3])
}

/// The channel at `index` of a photograph in raster scan order: channel
/// `index % 4` of the pixel at `index / 4`, which lies in column
/// `(index / 4) % width` of row `(index / 4) / width`.
pub open spec fn photo_channel(photo: image::DynamicImage, index: int) -> u8 {
    let width = photo_size(photo).0 as int;
    let x = ((index / 4) % width) as u32;
    let y = ((index / 4) / width) as u32;
    pixel_channel(photo_pixels(photo)[(x, y)], index % 4)
}

/// A photograph as an image: its size, and its pixels row by row.
pub open spec fn photo_raster(photo: image::DynamicImage) -> Raster {
    let (width, height) = photo_size(photo);
    Raster {
        width,
        height,
        channels: Seq::new((width * height * 4) as nat, |i: int| photo_channel(photo, i)),
    }
}

/// Reads a photograph into an image, pixel by pixel in raster scan order.
///
/// A photograph with more channels than memory can address cannot be held and is
/// an `ExternalCodecError`.
pub fn photo_to_pixels(photo: &image::DynamicImage) -> (image: Result<PixelBuffer, CodecError>)
    ensures
        photo_raster(*photo).channels.len() <= usize::MAX ==> decoded(image) == Ok::<
            Raster,
            CodecError,
        >(photo_raster(*photo)),
        photo_raster(*photo).channels.len() > usize::MAX ==> image == Err::<
            PixelBuffer,
            CodecError,
        >(CodecError::ExternalCodecError),
{
    let (width, height) = dimensions_of(photo);
    if channel_count(width, height) > usize::MAX as u128 {
        return Err(CodecError::ExternalCodecError);
    }
    let mut channels: Vec<u8> = Vec::new();
    let mut y: u32 = 0;
    while y < height
        invariant
            y <= height,
            (width, height) == photo_size(*photo),
            width * height * 4 <= usize::MAX,
            channels@.len() == 4 * (y * width),
            forall|i: int| 0 <= i < channels@.len() ==> channels@[i] == photo_channel(*photo, i),
        decreases height - y,
    {
        let mut x: u32 = 0;
        while x < width
            invariant
                y < height,
                x <= width,
                (width, height) == photo_size(*photo),
                width * height * 4 <= usize::MAX,
                channels@.len() == 4 * (y * width + x),
                forall|i: int|
                    0 <= i < channels@.len() ==> channels@[i] == photo_channel(*photo, i),
            decreases width - x,
        {
            let (r, g, b, a) = pixel_of(photo, x, y);
            proof {
                let at = y * width + x;
                assert(0 <= y * width) by (nonlinear_arith)
                    requires
                        0 <= y,
                        0 <= width,
                ;
                lemma_fundamental_div_mod_converse(at, width as int, y as int, x as int);
                assert(at + 1 <= width * height) by (nonlinear_arith)
                    requires
                        at == y * width + x,
                        x < width,
                        y < height,
                ;
            }
            let ghost start = channels@.len() as int;
            channels.push(r);
            channels.push(g);
            channels.push(b);
            channels.push(a);
            x = x + 1;
            assert forall|i: int| 0 <= i < channels@.len() implies channels@[i] == photo_channel(
                *photo,
                i,
            ) by {
                if i >= start {
                    assert(i / 4 == start / 4);
                    assert(i % 4 == i - start);
                }
            }
        }
        y = y + 1;
        assert(y * width == (y - 1) * width + width) by (nonlinear_arith);
    }
    assert(4 * (height * width) == width * height * 4) by (nonlinear_arith);
    assert(channels@ =~= photo_raster(*photo).channels);
    PixelBuffer::new(width, height, channels)
}

/// Turns a photograph into container bytes: reads it into an image, then encodes
/// that in the given mode, with the header in the given byte order.
pub fn photo_to_container(photo: &image::DynamicImage, mode: EncodeMode, order: ByteOrder) -> (container:
    Result<Vec<u8>, CodecError>)
    ensures
        photo_raster(*photo).channels.len() <= usize::MAX ==> container is Ok
            && container->Ok_0@ == container_bytes(order, mode, photo_raster(*photo)),
        photo_raster(*photo).channels.len() > usize::MAX ==> container == Err::<
            Vec<u8>,
            CodecError,
        >(CodecError::ExternalCodecError),
{
    match photo_to_pixels(photo) {
        Ok(image) => Ok(encode(&image, mode, order)),
        Err(e) => Err(e),
    }
}

/// Turns the bytes of a JPEG photograph into container bytes.
///
/// Whether the bytes decode, and to what size, depends on the bytes alone. Bytes
/// that do not decode are an `ExternalCodecError`, and so is a photograph with
/// more channels than memory can address. Any other import succeeds, and gives
/// what [`photo_to_container`] gives for the photograph that the bytes decode to,
/// which has the size that [`jpeg_size`] names.
pub fn import_photo(photo_bytes: &[u8], mode: EncodeMode, order: ByteOrder) -> (container: Result<
    Vec<u8>,
    CodecError,
>)
    ensures
        match jpeg_size(photo_bytes@) {
            Some(size) => if size.0 * size.1 * 4 <= usize::MAX {
                container matches Ok(bytes) && exists|photo: image::DynamicImage|
                    photo_size(photo) == size && bytes@ == container_bytes(
                        order,
                        mode,
                        #[trigger] photo_raster(photo),
                    )
            } else {
                container == Err::<Vec<u8>, CodecError>(CodecError::ExternalCodecError)
            },
            None => container == Err::<Vec<u8>, CodecError>(CodecError::ExternalCodecError),
        },
{
    match load_jpeg(photo_bytes) {
        Ok(photo) => {
            let container = photo_to_container(&photo, mode, order);
            assert(photo_raster(photo).channels.len() == photo_size(photo).0 * photo_size(photo).1
                * 4);
            container
        },
        Err(_) => Err(CodecError::ExternalCodecError),
    }
}

/// Which way a conversion runs.
#[derive(Debug, Clone, Copy, PartialEq, Eq, Structural)]
pub enum Direction {
    /// From a photograph to a container.
    Import,
    /// From a container to a photograph.
    Export,
}

/// The direction that a file extension selects: `jpg` and `jpeg` name a
/// photograph, `silly` a container, and nothing else is supported. Case matters.
pub open spec fn extension_direction(extension: Seq<char>) -> Result<Direction, CodecError> {
    if extension == "jpg"@ || extension == "jpeg"@ {
        Ok(Direction::Import)
    } else if extension == "silly"@ {
        Ok(Direction::Export)
    } else {
        Err(CodecError::UnsupportedFormat)
    }
}

/// Whether two strings are the same text.
pub fn same_text(left: &str, right: &str) -> (same: bool)
    ensures
        same == (left@ == right@),
{
    proof {
        encode_utf8_decode_utf8(left@);
        encode_utf8_decode_utf8(right@);
    }
    same_bytes(left.as_bytes(), right.as_bytes())
}

/// Whether two byte slices hold the same bytes.
pub fn same_bytes(left: &[u8], right: &[u8]) -> (same: bool)
    ensures
        same == (left@ == right@),
{
    if left.len() != right.len() {
        return false;
    }
    let mut i: usize = 0;
    while i < left.len()
        invariant
            i <= left@.len(),
            left@.len() == right@.len(),
            left@.take(i as int) == right@.take(i as int),
        decreases left@.len() - i,
    {
        if left[i] != right[i] {
            return false;
        }
        i = i + 1;
        assert(left@.take(i as int) =~= left@.take(i - 1).push(left@[i - 1]));
        assert(right@.take(i as int) =~= right@.take(i - 1).push(right@[i - 1]));
    }
    assert(left@.take(i as int) =~= left@);
    assert(right@.take(i as int) =~= right@);
    true
}

/// Selects the direction of a conversion from the extension of the file to
/// convert, or fails with `UnsupportedFormat`.
pub fn direction_for_extension(extension: &str) -> (direction: Result<Direction, CodecError>)
    ensures
        direction == extension_direction(extension@),
{
    if same_text(extension, "jpg") || same_text(extension, "jpeg") {
        Ok(Direction::Import)
    } else if same_text(extension, "silly") {
        Ok(Direction::Export)
    } else {
        Err(CodecError::UnsupportedFormat)
    }
}

/// The quality at which photographs are encoded.
pub const JPEG_QUALITY: u32 = 100;

/// How the photographic encoder is to read the channels of an image: the size as
/// signed numbers, and the number of bytes in one row.
#[derive(Debug, Clone, Copy, PartialEq, Eq, Structural)]
pub struct RasterLayout {
    pub width: i32,
    pub height: i32,
    pub row_bytes: usize,
}

/// The layout of an image of the given size, if the encoder can take it: the
/// height and the number of bytes in a row must each fit a signed 32-bit number.
pub open spec fn layout_of(width: u32, height: u32) -> Result<RasterLayout, CodecError> {
    if width * 4 <= i32::MAX && height <= i32::MAX {
        Ok(RasterLayout { width: width as i32, height: height as i32, row_bytes: (width * 4) as usize })
    } else {
        Err(CodecError::ExternalCodecError)
    }
}

/// Works out the layout in which the photographic encoder is handed an image, or
/// fails with `ExternalCodecError` where the image is too large for it.
pub fn raster_layout(image: &PixelBuffer) -> (layout: Result<RasterLayout, CodecError>)
    ensures
        layout == layout_of(image@.width, image@.height),
{
    let width = image.width();
    let height = image.height();
    if width <= 0x1fff_ffff && height <= 0x7fff_ffff {
        Ok(RasterLayout { width: width as i32, height: height as i32, row_bytes: (width as usize) * 4 })
    } else {
        Err(CodecError::ExternalCodecError)
    }
}

/// What the photographic encoder is asked to do: encode `image`, read in
/// `layout`, at `quality`.
#[derive(Debug)]
pub struct ExportRequest {
    pub image: PixelBuffer,
    pub layout: RasterLayout,
    pub quality: u32,
}

/// What decoding container bytes asks of the photographic encoder: the decoded
/// image with its layout and the fixed quality, or the failure of decoding, or
/// `ExternalCodecError` where the decoded image is too large for the encoder.
pub open spec fn export_of(order: ByteOrder, container: Seq<u8>) -> Result<
    (Raster, RasterLayout, u32),
    CodecError,
> {
    match container_raster(order, container) {
        Err(e) => Err(e),
        Ok(raster) => match layout_of(raster.width, raster.height) {
            Err(e) => Err(e),
            Ok(layout) => Ok((raster, layout, JPEG_QUALITY)),
        },
    }
}

/// An export request as a mathematical value.
pub open spec fn requested(request: Result<ExportRequest, CodecError>) -> Result<
    (Raster, RasterLayout, u32),
    CodecError,
> {
    match request {
        Ok(r) => Ok((r.image@, r.layout, r.quality)),
        Err(e) => Err(e),
    }
}

/// Starts the export of a container whose header is in the given byte order:
/// decodes it and works out what to ask of the photographic encoder.
pub fn export_request(container: &[u8], order: ByteOrder) -> (request: Result<
    ExportRequest,
    CodecError,
>)
    ensures
        requested(request) == export_of(order, container@),
{
    let image = match decode(container, order) {
        Ok(image) => image,
        Err(e) => {
            return Err(e);
        },
    };
    let layout = match raster_layout(&image) {
        Ok(layout) => layout,
        Err(e) => {
            return Err(e);
        },
    };
    Ok(ExportRequest { image, layout, quality: JPEG_QUALITY })
}

/// Ends an export, given what the photographic encoder returned: its bytes, or
/// `ExternalCodecError` where it returned none.
pub fn export_result(encoded: Option<Vec<u8>>) -> (photo: Result<Vec<u8>, CodecError>)
    ensures
        photo == match encoded {
            Some(bytes) => Ok::<Vec<u8>, CodecError>(bytes),
            None => Err(CodecError::ExternalCodecError),
        },
{
    match encoded {
        Some(bytes) => Ok(bytes),
        None => Err(CodecError::ExternalCodecError),
    }
}

} // verus!
