//! What holds of a street name on its way over the bus.

use vstd::prelude::*;
use vstd::utf8::{
    decode_utf8, decode_utf8_split, encode_scalar, encode_utf8, encode_utf8_decode_utf8,
    encode_utf8_valid_utf8, is_char_boundary, is_char_boundary_start_end_of_seq,
    length_of_first_scalar, pop_first_scalar, valid_utf8, valid_utf8_split,
};

use crate::can::{
    boundary_upto, buffer_after, chunk_count, decoded, is_chunk, name_in, street_bytes,
    street_message, street_messages, with_chunk, zero_from, MessageView, ID_STREET,
};
use crate::telemetry::TelemetryView;
use crate::text::text_of;

verus! {

/// `t` and the reassembly buffer after the frames `ms`, in order.
pub open spec fn replayed(t: TelemetryView, buffer: Seq<u8>, ms: Seq<MessageView>) -> (
    TelemetryView,
    Seq<u8>,
)
    decreases ms.len(),
{
    if ms.len() == 0 {
        (t, buffer)
    } else {
        let before = replayed(t, buffer, ms.drop_last());
        let m = ms.last();
        (decoded(before.0, before.1, m.id, m.data), buffer_after(before.1, m.id, m.data))
    }
}

/// `bytes` followed by zeros up to the size of a reassembly buffer.
pub open spec fn padded(bytes: Seq<u8>) -> Seq<u8> {
    Seq::new(
        28,
        |k: int|
            if k < bytes.len() {
                bytes[k]
            } else {
                0u8
            },
    )
}

/// A character boundary is never more than three bytes away.
proof fn boundary_is_near(bytes: Seq<u8>, n: int)
    requires
        valid_utf8(bytes),
        0 <= n <= bytes.len(),
    ensures
        0 <= boundary_upto(bytes, n) <= n,
        n - 3 <= boundary_upto(bytes, n),
        is_char_boundary(bytes, boundary_upto(bytes, n)),
    decreases bytes.len(),
{
    reveal_with_fuel(boundary_upto, 5);
    if n == 0 {
        is_char_boundary_start_end_of_seq(bytes);
    } else {
        let first = length_of_first_scalar(bytes);
        if n >= first {
            let rest = pop_first_scalar(bytes);
            boundary_is_near(rest, n - first);
            assert(is_char_boundary(bytes, n) == is_char_boundary(rest, n - first));
            assert(n >= first + 1 ==> is_char_boundary(bytes, n - 1) == is_char_boundary(
                rest,
                n - 1 - first,
            ));
            assert(n >= first + 2 ==> is_char_boundary(bytes, n - 2) == is_char_boundary(
                rest,
                n - 2 - first,
            ));
            assert(n >= first + 3 ==> is_char_boundary(bytes, n - 3) == is_char_boundary(
                rest,
                n - 3 - first,
            ));
        } else {
            is_char_boundary_start_end_of_seq(bytes);
        }
    }
}

/// What is sent of a name is valid UTF-8 of at most 28 bytes, and it spells a
/// prefix of the name. All of a name that fits is sent; of a longer one no
/// more is dropped than a character that would be torn.
pub proof fn a_name_is_cut_between_characters(name: Seq<char>)
    ensures
        valid_utf8(street_bytes(name)),
        street_bytes(name).len() <= 28,
        decode_utf8(street_bytes(name)).is_prefix_of(name),
        encode_utf8(name).len() <= 28 ==> decode_utf8(street_bytes(name)) == name,
        encode_utf8(name).len() > 28 ==> street_bytes(name).len() >= 25,
{
    let bytes = encode_utf8(name);
    encode_utf8_valid_utf8(name);
    encode_utf8_decode_utf8(name);
    if bytes.len() > 28 {
        boundary_is_near(bytes, 28);
        let cut = boundary_upto(bytes, 28);
        valid_utf8_split(bytes, cut);
        decode_utf8_split(bytes, cut);
        assert(bytes.subrange(0, cut) == bytes.take(cut));
        let kept = decode_utf8(bytes.take(cut));
        assert(name.take(kept.len() as int) == kept);
    }
}

/// No byte of a character other than NUL is zero.
proof fn no_zero_byte_in_char(first: char)
    requires
        first != '\0',
    ensures
        forall|k: int|
            0 <= k < encode_scalar(first as u32).len() ==> #[trigger] encode_scalar(
                first as u32,
            )[k] != 0,
{
    let c = first as u32;
    assert(c != 0);
    assert(c != 0 && c <= 0x7f ==> (c & 0x7F) as u8 != 0) by (bit_vector);
    assert(0xC0 | ((c >> 6) & 0x1F) as u8 != 0) by (bit_vector);
    assert(0xE0 | ((c >> 12) & 0x0F) as u8 != 0) by (bit_vector);
    assert(0xF0 | ((c >> 18) & 0x7) as u8 != 0) by (bit_vector);
    assert(0x80 | (c & 0x3F) as u8 != 0) by (bit_vector);
    assert(0x80 | ((c >> 6) & 0x3F) as u8 != 0) by (bit_vector);
    assert(0x80 | ((c >> 12) & 0x3F) as u8 != 0) by (bit_vector);
}

/// No byte of a name without NUL characters is zero.
proof fn no_zero_byte(name: Seq<char>)
    requires
        forall|i: int| 0 <= i < name.len() ==> name[i] != '\0',
    ensures
        forall|k: int| 0 <= k < encode_utf8(name).len() ==> encode_utf8(name)[k] != 0,
    decreases name.len(),
{
    if name.len() > 0 {
        no_zero_byte_in_char(name[0]);
        let rest = name.drop_first();
        no_zero_byte(rest);
        assert(encode_utf8(name) == encode_scalar(name[0] as u32) + encode_utf8(rest));
    }
}

/// Past bytes that are not zero, the first zero is where it was.
proof fn zero_after(buffer: Seq<u8>, i: int, n: int)
    requires
        0 <= i <= n <= buffer.len(),
        forall|k: int| 0 <= k < n ==> buffer[k] != 0,
    ensures
        zero_from(buffer, i) == zero_from(buffer, n),
    decreases n - i,
{
    if i < n {
        zero_after(buffer, i + 1, n);
    }
}

/// A buffer that holds `bytes` and nothing else reads as the text of `bytes`.
proof fn padded_reads_back(bytes: Seq<u8>)
    requires
        bytes.len() <= 28,
        forall|k: int| 0 <= k < bytes.len() ==> bytes[k] != 0,
    ensures
        name_in(padded(bytes)) == text_of(bytes),
{
    let buffer = padded(bytes);
    zero_after(buffer, 0, bytes.len() as int);
    assert(buffer.take(bytes.len() as int) == bytes);
}

/// How much of `bytes` its first `n` chunks carry.
spec fn carried(bytes: Seq<u8>, n: int) -> Seq<u8> {
    bytes.take(
        if 7 * n < bytes.len() {
            7 * n
        } else {
            bytes.len() as int
        },
    )
}

/// A chunk puts its text behind that of the chunks before it.
proof fn a_chunk_extends_the_buffer(buffer: Seq<u8>, bytes: Seq<u8>, n: int)
    requires
        bytes.len() <= 28,
        1 <= n <= chunk_count(bytes.len() as int),
        n > 1 ==> buffer == padded(carried(bytes, n - 1)),
    ensures
        is_chunk(street_message(bytes, n - 1).data),
        with_chunk(buffer, street_message(bytes, n - 1).data) == padded(carried(bytes, n)),
{
}

/// After its first `n` chunks the buffer holds the text they carry.
proof fn chunks_fill_the_buffer(t: TelemetryView, buffer: Seq<u8>, bytes: Seq<u8>, n: int)
    requires
        bytes.len() <= 28,
        1 <= n <= chunk_count(bytes.len() as int),
    ensures
        ({
            let sent = Seq::new(n as nat, |i: int| street_message(bytes, i));
            &&& replayed(t, buffer, sent).1 == padded(carried(bytes, n))
            &&& replayed(t, buffer, sent).0 == TelemetryView {
                turn_street: name_in(padded(carried(bytes, n))),
                ..t
            }
        }),
    decreases n,
{
    let sent = Seq::new(n as nat, |i: int| street_message(bytes, i));
    let shorter = Seq::new((n - 1) as nat, |i: int| street_message(bytes, i));
    assert(sent.drop_last() == shorter);
    assert(sent.last() == street_message(bytes, n - 1));
    if n > 1 {
        chunks_fill_the_buffer(t, buffer, bytes, n - 1);
    }
    a_chunk_extends_the_buffer(replayed(t, buffer, shorter).1, bytes, n);
}

/// A name sent in chunks arrives, whatever was in the buffer before, and
/// nothing else changes. A NUL character ends a name on the bus, so the name
/// may not hold one.
pub proof fn a_street_name_arrives(t: TelemetryView, buffer: Seq<u8>, name: Seq<char>)
    requires
        forall|i: int| 0 <= i < name.len() ==> name[i] != '\0',
    ensures
        replayed(t, buffer, street_messages(name)).0 == (TelemetryView {
            turn_street: decode_utf8(street_bytes(name)),
            ..t
        }),
        replayed(t, buffer, street_messages(name)).1 == padded(street_bytes(name)),
{
    let bytes = street_bytes(name);
    a_name_is_cut_between_characters(name);
    no_zero_byte(name);
    assert forall|k: int| 0 <= k < bytes.len() implies bytes[k] != 0 by {
        if encode_utf8(name).len() > 28 {
            encode_utf8_valid_utf8(name);
            boundary_is_near(encode_utf8(name), 28);
        }
        assert(bytes[k] == encode_utf8(name)[k]);
    }
    let n = chunk_count(bytes.len() as int);
    chunks_fill_the_buffer(t, buffer, bytes, n);
    assert(bytes.take(bytes.len() as int) == bytes);
    padded_reads_back(bytes);
}

/// Chunk 0 starts a new name: whatever was received before, the name is then
/// the text of that one frame.
pub proof fn chunk_zero_starts_a_new_name(t: TelemetryView, buffer: Seq<u8>, text: Seq<u8>)
    requires
        text.len() <= 7,
        forall|k: int| 0 <= k < text.len() ==> text[k] != 0,
    ensures
        decoded(t, buffer, ID_STREET, seq![0u8] + text) == (TelemetryView {
            turn_street: text_of(text),
            ..t
        }),
{
    let d = seq![0u8] + text;
    assert(with_chunk(buffer, d) == padded(text));
    padded_reads_back(text);
}

/// A name of at most 7 bytes needs a single frame, one of more than 7 needs more.
pub proof fn a_short_name_needs_one_frame(name: Seq<char>)
    ensures
        street_messages(name).len() == 1 <==> encode_utf8(name).len() <= 7,
        street_messages(name).len() <= 4,
{
    a_name_is_cut_between_characters(name);
}

/// Trailing bytes of a chunk may be omitted or padded with zeros.
pub proof fn padding_a_chunk_changes_nothing(buffer: Seq<u8>, d: Seq<u8>, zeros: nat)
    requires
        is_chunk(d),
    ensures
        with_chunk(buffer, d + Seq::new(zeros, |i: int| 0u8)) == with_chunk(buffer, d),
{
    assert(with_chunk(buffer, d + Seq::new(zeros, |i: int| 0u8)) == with_chunk(buffer, d));
}

} // verus!
