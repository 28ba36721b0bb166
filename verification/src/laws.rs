//! What holds of encoding and decoding together.

use vstd::prelude::*;
use crate::decoder::{
    body_channels, body_raster, body_shape, body_text, container_raster, group_at, groups_decode,
    is_ascii_text, pixel_channel, without_newlines, BodyShape, NEWLINE,
};
use crate::encoder::{body_bytes, container_bytes, rgb_of, rgb_rows_text, row_end, EncodeMode};
use crate::error::CodecError;
use crate::header::{header_bytes, header_size, lemma_header_round_trip, ByteOrder, HEADER_LEN};
use crate::hex::{
    group_pixel, hex_text, hex_value, lemma_bad_digit_rejects_group, lemma_hex_round_trip,
};
use crate::pixel_buffer::Raster;

verus! {

/// Text that holds no newline is left as it is when newlines are taken out.
pub proof fn lemma_clean_text_keeps(text: Seq<u8>)
    requires
        forall|i: int| 0 <= i < text.len() ==> #[trigger] text[i] != NEWLINE,
    ensures
        without_newlines(text) == text,
    decreases text.len(),
{
    reveal(Seq::filter);
    if text.len() > 0 {
        lemma_clean_text_keeps(text.drop_last());
        assert(text.drop_last().push(text.last()) =~= text);
    }
}

/// The text of two channel sequences, one after the other, is the text of the
/// first followed by the text of the second.
pub proof fn lemma_hex_text_concat(first: Seq<u8>, second: Seq<u8>)
    ensures
        hex_text(first + second) == hex_text(first) + hex_text(second),
{
    let whole = hex_text(first + second);
    let parts = hex_text(first) + hex_text(second);
    assert forall|i: int| 0 <= i < whole.len() implies whole[i] == parts[i] by {
        if i < 2 * first.len() {
            assert(i / 2 < first.len());
        } else {
            let j = i - 2 * first.len();
            assert(i / 2 == first.len() + j / 2);
            assert(i % 2 == j % 2);
        }
    }
    assert(whole =~= parts);
}

/// The group of `size` digits at `k` in the text of a channel sequence is the text
/// of the `size / 2` channels that it stands for.
pub proof fn lemma_group_of_hex_text(channels: Seq<u8>, per_group: nat, k: int)
    requires
        0 <= k,
        per_group == 3 || per_group == 4,
        per_group * k + per_group <= channels.len(),
    ensures
        group_at(hex_text(channels), 2 * per_group, k) == hex_text(
            channels.subrange(per_group * k, per_group * k + per_group),
        ),
{
    let size = 2 * per_group;
    let text = hex_text(channels);
    let group = group_at(text, size, k);
    let part = channels.subrange(per_group * k, per_group * k + per_group);
    assert(k * size == 2 * (per_group * k)) by (nonlinear_arith)
        requires
            size == 2 * per_group,
    ;
    assert forall|j: int| 0 <= j < size implies group[j] == hex_text(part)[j] by {
        let i = k * size + j;
        assert(i / 2 == per_group * k + j / 2);
        assert(i % 2 == j % 2);
    }
    assert(group =~= hex_text(part));
}

/// A container read in the byte order it was written in announces the size of its
/// image, and what follows its header is its body.
pub proof fn lemma_container_parts(order: ByteOrder, mode: EncodeMode, raster: Raster)
    ensures
        header_size(order, container_bytes(order, mode, raster)) == Ok::<(u32, u32), CodecError>(
            (raster.width, raster.height),
        ),
        container_bytes(order, mode, raster).skip(HEADER_LEN as int) == body_bytes(mode, raster),
{
    let header = header_bytes(order, raster.width, raster.height);
    let bytes = container_bytes(order, mode, raster);
    lemma_header_round_trip(order, raster.width, raster.height);
    assert(bytes.subrange(0, 4) =~= header.subrange(0, 4));
    assert(bytes.subrange(4, 8) =~= header.subrange(4, 8));
    assert(bytes.skip(HEADER_LEN as int) =~= body_bytes(mode, raster));
}

/// The text of a channel sequence is ASCII and holds no newline, so it is the body
/// that it is read as.
pub proof fn lemma_hex_text_is_body(channels: Seq<u8>)
    ensures
        without_newlines(body_text(hex_text(channels))) == hex_text(channels),
{
    let text = hex_text(channels);
    lemma_hex_round_trip(channels);
    assert(is_ascii_text(text)) by {
        assert forall|i: int| 0 <= i < text.len() implies #[trigger] text[i] < 0x80 by {
            assert(0x30 <= text[i] <= 0x46);
        }
    }
    assert forall|i: int| 0 <= i < text.len() implies #[trigger] text[i] != NEWLINE by {
        assert(0x30 <= text[i] <= 0x46);
    }
    lemma_clean_text_keeps(text);
}

/// In the text of a channel sequence, the eight-digit group at `k` decodes to the
/// four channels of the pixel at `k`.
pub proof fn lemma_rgba_group(channels: Seq<u8>, k: int)
    requires
        0 <= k,
        4 * k + 4 <= channels.len(),
    ensures
        group_pixel(group_at(hex_text(channels), 8, k)) == Ok::<(u8, u8, u8, u8), CodecError>(
            (channels[4 * k], channels[4 * k + 1], channels[4 * k + 2], channels[4 * k + 3]),
        ),
{
    lemma_group_of_hex_text(channels, 4, k);
    let part = channels.subrange(4 * k, 4 * k + 4);
    lemma_hex_round_trip(part);
    assert(part[0] == channels[4 * k] && part[1] == channels[4 * k + 1] && part[2] == channels[4
        * k + 2] && part[3] == channels[4 * k + 3]);
}

/// In the text of a sequence of red, green and blue channels, the six-digit group
/// at `k` decodes to those of the pixel at `k`, fully opaque.
pub proof fn lemma_rgb_group(flat: Seq<u8>, k: int)
    requires
        0 <= k,
        3 * k + 3 <= flat.len(),
    ensures
        group_pixel(group_at(hex_text(flat), 6, k)) == Ok::<(u8, u8, u8, u8), CodecError>(
            (flat[3 * k], flat[3 * k + 1], flat[3 * k + 2], 255u8),
        ),
{
    lemma_group_of_hex_text(flat, 3, k);
    let part = flat.subrange(3 * k, 3 * k + 3);
    lemma_hex_round_trip(part);
    assert(part[0] == flat[3 * k] && part[1] == flat[3 * k + 1] && part[2] == flat[3 * k + 2]);
}

/// Round trip: an image encoded in the compact mode decodes, in the byte order it
/// was written in, to that same image.
pub proof fn lemma_rgba_round_trip(order: ByteOrder, raster: Raster)
    requires
        raster.wf(),
    ensures
        container_raster(order, container_bytes(order, EncodeMode::RgbaCompact, raster)) == Ok::<
            Raster,
            CodecError,
        >(raster),
{
    let width = raster.width;
    let height = raster.height;
    let channels = raster.channels;
    let body = hex_text(channels);
    let count = (width * height) as nat;
    lemma_container_parts(order, EncodeMode::RgbaCompact, raster);
    lemma_hex_text_is_body(channels);
    assert(body.len() == 2 * channels.len()) by {
        lemma_hex_round_trip(channels);
    }
    assert(body_raster(width, height, body) == Ok::<Raster, CodecError>(raster)) by {
        assert(body_shape(width, height, body.len()) == Ok::<BodyShape, CodecError>(
            BodyShape::Rgba,
        ));
        assert forall|k: int| 0 <= k < count implies (#[trigger] group_pixel(
            group_at(body, 8, k),
        )) is Ok by {
            lemma_rgba_group(channels, k);
        }
        let read = body_channels(body, 8, count);
        assert forall|i: int| 0 <= i < read.len() implies read[i] == channels[i] by {
            lemma_rgba_group(channels, i / 4);
        }
        assert(read =~= channels);
    }
}

/// The red, green and blue channels of the first `count` pixels, in order.
pub open spec fn rgb_channels(channels: Seq<u8>, count: nat) -> Seq<u8> {
    Seq::new(3 * count, |i: int| channels[4 * (i / 3) + i % 3])
}

/// The red, green and blue channels of some pixels are those of all but the last,
/// then those of the last.
pub proof fn lemma_rgb_channels_step(channels: Seq<u8>, count: nat)
    requires
        count > 0,
        4 * count <= channels.len(),
    ensures
        rgb_channels(channels, count) == rgb_channels(channels, (count - 1) as nat) + rgb_of(
            channels,
            count - 1,
        ),
{
    let before = (count - 1) as nat;
    let whole = rgb_channels(channels, count);
    let parts = rgb_channels(channels, before) + rgb_of(channels, count - 1);
    assert(whole.len() == parts.len());
    assert forall|i: int| 0 <= i < whole.len() implies whole[i] == parts[i] by {
        if i >= 3 * before {
            assert(i / 3 == before);
            assert(i % 3 == i - 3 * before);
        }
    }
    assert(whole =~= parts);
}

/// Taking the newlines out of what ends a pixel in rows mode leaves nothing.
pub proof fn lemma_row_end_vanishes(width: u32, count: nat)
    ensures
        without_newlines(row_end(width, count)) == Seq::<u8>::empty(),
        row_end(width, count).len() <= 1,
        forall|i: int| 0 <= i < row_end(width, count).len() ==> row_end(width, count)[i] == NEWLINE,
{
    reveal_with_fuel(Seq::filter, 2);
    let end = row_end(width, count);
    if end.len() > 0 {
        assert(end.drop_last() =~= Seq::<u8>::empty());
        assert(end.last() == NEWLINE);
    }
}

/// With its newlines taken out, the rows-mode text of the first `count` pixels is
/// the text of their red, green and blue channels; and it is ASCII.
pub proof fn lemma_rgb_rows_text(raster: Raster, count: nat)
    requires
        4 * count <= raster.channels.len(),
    ensures
        without_newlines(rgb_rows_text(raster, count)) == hex_text(
            rgb_channels(raster.channels, count),
        ),
        is_ascii_text(rgb_rows_text(raster, count)),
    decreases count,
{
    let keep = |b: u8| b != NEWLINE;
    if count == 0 {
        reveal(Seq::filter);
        assert(rgb_rows_text(raster, count) =~= Seq::<u8>::empty());
        assert(hex_text(rgb_channels(raster.channels, count)) =~= Seq::<u8>::empty());
    } else {
        let before = (count - 1) as nat;
        lemma_rgb_rows_text(raster, before);
        let head = rgb_rows_text(raster, before);
        let pixel = rgb_of(raster.channels, count - 1);
        let group = hex_text(pixel);
        let end = row_end(raster.width, count);
        let text = rgb_rows_text(raster, count);
        assert(text == head + group + end);
        lemma_row_end_vanishes(raster.width, count);
        assert(without_newlines(group) == group && is_ascii_text(group)) by {
            lemma_hex_text_is_body(pixel);
            lemma_hex_round_trip(pixel);
            assert forall|i: int| 0 <= i < group.len() implies #[trigger] group[i] < 0x80 by {
                assert(0x30 <= group[i] <= 0x46);
            }
        }
        assert(without_newlines(text) == without_newlines(head) + group) by {
            Seq::filter_distributes_over_add(head, group, keep);
            Seq::filter_distributes_over_add(head + group, end, keep);
            assert(without_newlines(head) + group + Seq::<u8>::empty() =~= without_newlines(head)
                + group);
        }
        assert(without_newlines(head) + group == hex_text(
            rgb_channels(raster.channels, count),
        )) by {
            lemma_rgb_channels_step(raster.channels, count);
            lemma_hex_text_concat(rgb_channels(raster.channels, before), pixel);
        }
        assert forall|i: int| 0 <= i < text.len() implies #[trigger] text[i] < 0x80 by {
            if i < head.len() {
                assert(text[i] == head[i]);
            } else if i < head.len() + group.len() {
                assert(text[i] == group[i - head.len()]);
            } else {
                assert(text[i] == end[i - head.len() - group.len()]);
            }
        }
    }
}

/// Rows mode loses alpha and nothing else: an image encoded in rows mode decodes,
/// in the byte order it was written in, to that image with every pixel fully
/// opaque.
pub proof fn lemma_rgb_rows_round_trip(order: ByteOrder, raster: Raster)
    requires
        raster.wf(),
    ensures
        container_raster(order, container_bytes(order, EncodeMode::RgbRows, raster)) == Ok::<
            Raster,
            CodecError,
        >(raster.opaque()),
{
    let width = raster.width;
    let height = raster.height;
    let channels = raster.channels;
    let count = raster.pixel_count();
    let text = rgb_rows_text(raster, count);
    let flat = rgb_channels(channels, count);
    let body = hex_text(flat);
    lemma_container_parts(order, EncodeMode::RgbRows, raster);
    lemma_rgb_rows_text(raster, count);
    assert(without_newlines(body_text(text)) == body);
    assert(body.len() == 6 * count) by {
        lemma_hex_round_trip(flat);
    }
    assert(body_raster(width, height, body) == Ok::<Raster, CodecError>(raster.opaque())) by {
        let wanted = raster.opaque().channels;
        if count == 0 {
            assert(body_shape(width, height, body.len()) == Ok::<BodyShape, CodecError>(
                BodyShape::Rgba,
            ));
            assert(groups_decode(body, 8, count));
            assert(body_channels(body, 8, count) =~= wanted);
        } else {
            assert(body_shape(width, height, body.len()) == Ok::<BodyShape, CodecError>(
                BodyShape::Rgb,
            ));
            assert forall|k: int| 0 <= k < count implies (#[trigger] group_pixel(
                group_at(body, 6, k),
            )) is Ok by {
                lemma_rgb_group(flat, k);
            }
            let read = body_channels(body, 6, count);
            assert forall|i: int| 0 <= i < read.len() implies read[i] == wanted[i] by {
                let k = i / 4;
                lemma_rgb_group(flat, k);
                assert((3 * k) / 3 == k && (3 * k + 1) / 3 == k && (3 * k + 2) / 3 == k);
                assert((3 * k) % 3 == 0 && (3 * k + 1) % 3 == 1 && (3 * k + 2) % 3 == 2);
            }
            assert(read =~= wanted);
        }
    }
}

/// Length rejection: where the body that follows a whole header, with its newlines
/// taken out, has neither the length of the eight-digit shape nor that of the
/// six-digit shape, decoding fails with `LengthMismatch` and yields no image,
/// whatever the body holds.
pub proof fn lemma_length_rejection(order: ByteOrder, bytes: Seq<u8>, width: u32, height: u32)
    requires
        header_size(order, bytes) == Ok::<(u32, u32), CodecError>((width, height)),
        without_newlines(body_text(bytes.skip(HEADER_LEN as int))).len() != width * height * 8,
        without_newlines(body_text(bytes.skip(HEADER_LEN as int))).len() != width * height * 6,
    ensures
        container_raster(order, bytes) == Err::<Raster, CodecError>(
            CodecError::LengthMismatch {
                expected: (width * height * 8) as u128,
                actual: without_newlines(body_text(bytes.skip(HEADER_LEN as int))).len() as usize,
            },
        ),
{
}

/// Malformed hex rejection: a body whose length fits a shape and which holds, in
/// one of its groups, a byte that is no hexadecimal digit is `MalformedHex`. No
/// value is put in that byte's place.
pub proof fn lemma_bad_digit_rejects_body(width: u32, height: u32, body: Seq<u8>, at: int)
    requires
        body_shape(width, height, body.len()) is Ok,
        0 <= at < body.len(),
        hex_value(body[at]) is None,
    ensures
        body_raster(width, height, body) == Err::<Raster, CodecError>(CodecError::MalformedHex),
{
    let shape = body_shape(width, height, body.len())->Ok_0;
    let size = shape.group_len();
    let count = (width * height) as nat;
    let k = at / (size as int);
    assert(size == 6 || size == 8);
    assert(count * size == body.len()) by (nonlinear_arith)
        requires
            body.len() == width * height * size,
            count == width * height,
    ;
    assert(0 <= k < count && k * size <= at < k * size + size) by (nonlinear_arith)
        requires
            0 <= at < count * size,
            size == 6 || size == 8,
            k == at / (size as int),
    ;
    let group = group_at(body, size, k);
    assert(group[at - k * size] == body[at]);
    lemma_bad_digit_rejects_group(group, at - k * size);
    assert(!groups_decode(body, size, count));
}

} // verus!
