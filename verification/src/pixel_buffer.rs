//! The decoded image that every conversion passes through.

use vstd::prelude::*;
use crate::error::CodecError;

verus! {

/// An image as a mathematical value: its size, and its channels in raster scan
/// order (top to bottom, left to right), four for each pixel: red, green, blue,
/// alpha.
pub struct Raster {
    pub width: u32,
    pub height: u32,
    pub channels: Seq<u8>,
}

impl Raster {
    /// Number of pixels.
    pub open spec fn pixel_count(self) -> nat {
        (self.width * self.height) as nat
    }

    /// There are four channels for each pixel, and no others.
    pub open spec fn wf(self) -> bool {
        self.channels.len() == self.width * self.height * 4
    }

    /// The same image with every pixel fully opaque.
    pub open spec fn opaque(self) -> Raster {
        Raster {
            width: self.width,
            height: self.height,
            channels: Seq::new(
                self.channels.len(),
                |i: int|
                    if i % 4 == 3 {
                        255u8
                    } else {
                        self.channels[i]
                    },
            ),
        }
    }
}

/// An image in memory. It always holds four channels for each of its
/// `width * height` pixels, and it is never changed once made: each conversion
/// makes a new one.
#[derive(Debug, PartialEq, Eq)]
pub struct PixelBuffer {
    width: u32,
    height: u32,
    channels: Vec<u8>,
}

impl View for PixelBuffer {
    type V = Raster;

    closed spec fn view(&self) -> Raster {
        Raster { width: self.width, height: self.height, channels: self.channels@ }
    }
}

impl Clone for PixelBuffer {
    fn clone(&self) -> (copy: PixelBuffer)
        ensures
            copy@ == self@,
    {
        proof {
            use_type_invariant(self);
        }
        let channels = self.channels.clone();
        assert(channels@ =~= self.channels@);
        PixelBuffer { width: self.width, height: self.height, channels }
    }
}

/// The number of channels of an image of the given size.
pub fn channel_count(width: u32, height: u32) -> (count: u128)
    ensures
        count == width * height * 4,
{
    assert(width * height * 4 <= u128::MAX) by (nonlinear_arith)
        requires
            width <= u32::MAX,
            height <= u32::MAX,
    ;
    assert(width * height <= u128::MAX) by (nonlinear_arith)
        requires
            width <= u32::MAX,
            height <= u32::MAX,
    ;
    (width as u128) * (height as u128) * 4
}

impl PixelBuffer {
    #[verifier::type_invariant]
    spec fn holds_all_pixels(self) -> bool {
        self.channels@.len() == self.width * self.height * 4
    }

    /// Makes an image from its size and channels. The channels must be four for
    /// each pixel; any other number is a `SizeMismatch`.
    pub fn new(width: u32, height: u32, channels: Vec<u8>) -> (made: Result<PixelBuffer, CodecError>)
        ensures
            channels@.len() == width * height * 4 ==> made is Ok && made->Ok_0@ == (Raster {
                width,
                height,
                channels: channels@,
            }),
            channels@.len() != width * height * 4 ==> made == Err::<PixelBuffer, CodecError>(
                CodecError::SizeMismatch,
            ),
    {
        if channels.len() as u128 == channel_count(width, height) {
            Ok(PixelBuffer { width, height, channels })
        } else {
            Err(CodecError::SizeMismatch)
        }
    }

    /// Width in pixels.
    pub fn width(&self) -> (width: u32)
        ensures
            width == self@.width,
    {
        self.width
    }

    /// Height in pixels.
    pub fn height(&self) -> (height: u32)
        ensures
            height == self@.height,
    {
        self.height
    }

    /// The channels in raster scan order, four for each pixel.
    pub fn channels(&self) -> (channels: &[u8])
        ensures
            channels@ == self@.channels,
            self@.wf(),
    {
        proof {
            use_type_invariant(self);
        }
        self.channels.as_slice()
    }

    /// Number of pixels.
    pub fn pixel_count(&self) -> (count: usize)
        ensures
            count == self@.pixel_count(),
            self@.wf(),
    {
        proof {
            use_type_invariant(self);
        }
        self.channels.len() / 4
    }
}

} // verus!
