//! The failures a conversion can end in.

use vstd::prelude::*;

verus! {

/// Why a conversion stopped. Every failure ends the call it occurs in: nothing is
/// retried and no partial image is handed out.
#[derive(Debug, Clone, Copy, PartialEq, Eq, Structural)]
pub enum CodecError {
    /// Fewer than eight bytes were available where a header is expected.
    TruncatedHeader,
    /// The body, with its newlines removed, has neither the length of the
    /// eight-digit shape nor that of the six-digit shape. `expected` is the length
    /// of the eight-digit shape, `actual` the length found.
    LengthMismatch { expected: u128, actual: usize },
    /// A group of the body is not made of hexadecimal digit pairs.
    MalformedHex,
    /// A channel sequence does not hold four bytes for each of `width * height`
    /// pixels.
    SizeMismatch,
    /// The photographic codec could not decode or encode.
    ExternalCodecError,
    /// The file extension names neither a photograph nor a container.
    UnsupportedFormat,
}

} // verus!
