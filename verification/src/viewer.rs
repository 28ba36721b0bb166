//! What the display shell is told about a decoded image.

use vstd::prelude::*;
use crate::pixel_buffer::PixelBuffer;

verus! {

/// The size at which to show what decoding gave: width and height of the image,
/// or nothing by nothing where there is none.
pub fn display_size(image: &Option<PixelBuffer>) -> (size: (usize, usize))
    ensures
        size == match image {
            Some(buffer) => (buffer@.width as usize, buffer@.height as usize),
            None => (0usize, 0usize),
        },
{
    match image {
        Some(buffer) => (buffer.width() as usize, buffer.height() as usize),
        None => (0, 0),
    }
}

} // verus!
