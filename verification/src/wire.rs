//! The byte format of every packet: little-endian integers of fixed width, and
//! byte strings behind a length of eight bytes.
//!
//! The buffers and the encoding of the single fields come from the crates
//! `bytes` and `bincode`; what those calls do is stated here.

use bytes::{BufMut, BytesMut};
use vstd::prelude::*;
use vstd::slice::slice_subrange;

verus! {

/// The reusable byte buffer of the crate `bytes`.
#[verifier::external_type_specification]
#[verifier::external_body]
pub struct ExBytesMut(BytesMut);

/// The bytes that a buffer holds.
pub uninterp spec fn buffer_bytes(buffer: BytesMut) -> Seq<u8>;

// ---------------------------------------------------------------------------
// Integers as bytes
// ---------------------------------------------------------------------------

/// The `width` low bytes of `value`, the least significant first.
pub open spec fn le_bytes(value: nat, width: nat) -> Seq<u8>
    decreases width,
{
    if width == 0 {
        Seq::empty()
    } else {
        seq![(value % 256) as u8] + le_bytes(value / 256, (width - 1) as nat)
    }
}

/// The number that `bytes` spell, the least significant byte first.
pub open spec fn le_value(bytes: Seq<u8>) -> nat
    decreases bytes.len(),
{
    if bytes.len() == 0 {
        0
    } else {
        bytes[0] as nat + 256 * le_value(bytes.drop_first())
    }
}

/// How many numbers `width` bytes can spell.
pub open spec fn byte_range(width: nat) -> nat
    decreases width,
{
    if width == 0 {
        1
    } else {
        256 * byte_range((width - 1) as nat)
    }
}

/// The ranges of the integer types that packets hold.
pub proof fn byte_ranges()
    ensures
        byte_range(1) == 0x100,
        byte_range(2) == 0x1_0000,
        byte_range(4) == 0x1_0000_0000,
        byte_range(8) == 0x1_0000_0000_0000_0000,
{
    reveal_with_fuel(byte_range, 9);
}

/// `width` bytes are written.
pub proof fn le_bytes_len(value: nat, width: nat)
    ensures
        le_bytes(value, width).len() == width,
    decreases width,
{
    if width > 0 {
        le_bytes_len(value / 256, (width - 1) as nat);
    }
}

/// Bytes spell a number in the range of their count.
pub proof fn le_value_range(bytes: Seq<u8>)
    ensures
        le_value(bytes) < byte_range(bytes.len()),
    decreases bytes.len(),
{
    if bytes.len() > 0 {
        le_value_range(bytes.drop_first());
    }
}

/// A number that fits is read back as it was written.
pub proof fn le_round_trip(value: nat, width: nat)
    requires
        value < byte_range(width),
    ensures
        le_value(le_bytes(value, width)) == value,
    decreases width,
{
    if width > 0 {
        le_round_trip(value / 256, (width - 1) as nat);
        assert(le_bytes(value, width).drop_first() =~= le_bytes(value / 256, (width - 1) as nat));
    }
}

/// Each byte of a number is its digit to the base 256 at that place.
pub proof fn bytes_are_digits(value: nat, width: nat, place: nat)
    requires
        place < width,
    ensures
        le_bytes(value, width).len() == width,
        le_bytes(value, width)[place as int] == (value / byte_range(place)) % 256,
    decreases width,
{
    le_bytes_len(value, width);
    if place > 0 {
        bytes_are_digits(value / 256, (width - 1) as nat, (place - 1) as nat);
        byte_range_is_positive((place - 1) as nat);
        vstd::arithmetic::div_mod::lemma_div_denominator(value as int, 256, byte_range((place - 1) as nat) as int);
        assert(le_bytes(value, width)[place as int] == le_bytes(value / 256, (width - 1) as nat)[place - 1]) by {
            le_bytes_len(value / 256, (width - 1) as nat);
        }
        assert(value / byte_range(place) == (value / 256) / byte_range((place - 1) as nat));
    } else {
        let range = byte_range(place);
        assert(value / range == value) by (nonlinear_arith)
            requires
                range == 1,
        ;
    }
}

/// The range grows by 256 with each byte.
pub proof fn byte_range_is_positive(width: nat)
    ensures
        byte_range(0) == 1,
        byte_range(width) > 0,
        byte_range(width + 1) == 256 * byte_range(width),
    decreases width,
{
    if width > 0 {
        byte_range_is_positive((width - 1) as nat);
    }
}

/// Bytes are written again as they were read.
pub proof fn le_rewritten(bytes: Seq<u8>)
    ensures
        le_bytes(le_value(bytes), bytes.len()) == bytes,
    decreases bytes.len(),
{
    if bytes.len() > 0 {
        le_rewritten(bytes.drop_first());
        assert(bytes =~= seq![bytes[0]] + bytes.drop_first());
    } else {
        assert(bytes =~= Seq::empty());
    }
}

// ---------------------------------------------------------------------------
// Fields as bytes
// ---------------------------------------------------------------------------

/// A byte string behind its length.
pub open spec fn blob(bytes: Seq<u8>) -> Seq<u8> {
    le_bytes(bytes.len(), 8) + bytes
}

/// Where sequences are joined one behind the other, it does not matter which
/// are joined first.
pub proof fn join_associates(first: Seq<u8>, second: Seq<u8>, third: Seq<u8>)
    ensures
        (first + second) + third == first + (second + third),
{
    assert((first + second) + third =~= first + (second + third));
}

/// Eight bytes stand before a byte string.
pub proof fn blob_len(bytes: Seq<u8>)
    ensures
        blob(bytes).len() == 8 + bytes.len(),
{
    le_bytes_len(bytes.len(), 8);
}

/// The length of a slice fits eight bytes.
pub proof fn slice_fits(bytes: &[u8])
    ensures
        bytes@.len() <= u64::MAX,
{
    assert(bytes@.len() == bytes.len());
}

/// The length of a vector fits eight bytes.
pub proof fn vec_fits<T>(items: &Vec<T>)
    ensures
        items@.len() <= u64::MAX,
{
    assert(items@.len() == items.len());
}

/// The bytes of a text, in UTF-8.
pub open spec fn text(text: &str) -> Seq<u8> {
    vstd::utf8::encode_utf8(text@)
}

/// Different texts have different bytes.
pub proof fn texts_differ(left: &str, right: &str)
    requires
        left@ != right@,
    ensures
        text(left) != text(right),
{
    vstd::utf8::encode_utf8_decode_utf8(left@);
    vstd::utf8::encode_utf8_decode_utf8(right@);
}

/// A text of ASCII characters has one byte for each.
pub proof fn ascii_text(text: &str)
    requires
        vstd::utf8::is_ascii_chars(text@),
    ensures
        self::text(text) == Seq::new(text@.len(), |i: int| text@[i] as u8),
{
    vstd::string::is_ascii_spec_bytes(text);
    assert(self::text(text) =~= Seq::new(text@.len(), |i: int| text@[i] as u8));
}

/// The integer of `width` bytes that `bytes` start with, and what follows it.
pub open spec fn take_uint(bytes: Seq<u8>, width: nat) -> Option<(nat, Seq<u8>)> {
    if width <= bytes.len() {
        Some((le_value(bytes.take(width as int)), bytes.skip(width as int)))
    } else {
        None
    }
}

/// The first `count` bytes as they are, and what follows them.
pub open spec fn take_raw(bytes: Seq<u8>, count: nat) -> Option<(Seq<u8>, Seq<u8>)> {
    if count <= bytes.len() {
        Some((bytes.take(count as int), bytes.skip(count as int)))
    } else {
        None
    }
}

/// The byte string that `bytes` start with, and what follows it.
pub open spec fn take_blob(bytes: Seq<u8>) -> Option<(Seq<u8>, Seq<u8>)> {
    match take_uint(bytes, 8) {
        Some((count, rest)) => take_raw(rest, count),
        None => None,
    }
}

/// An integer that fits is read back, whatever follows it.
pub proof fn uint_round_trip(value: nat, width: nat, rest: Seq<u8>)
    requires
        value < byte_range(width),
    ensures
        take_uint(le_bytes(value, width) + rest, width) == Some((value, rest)),
{
    le_bytes_len(value, width);
    le_round_trip(value, width);
    let bytes = le_bytes(value, width) + rest;
    assert(bytes.take(width as int) =~= le_bytes(value, width));
    assert(bytes.skip(width as int) =~= rest);
}

/// Raw bytes are read back, whatever follows them.
pub proof fn raw_round_trip(raw: Seq<u8>, rest: Seq<u8>)
    ensures
        take_raw(raw + rest, raw.len()) == Some((raw, rest)),
{
    assert((raw + rest).take(raw.len() as int) =~= raw);
    assert((raw + rest).skip(raw.len() as int) =~= rest);
}

/// A byte string is read back, whatever follows it.
pub proof fn blob_round_trip(bytes: Seq<u8>, rest: Seq<u8>)
    requires
        bytes.len() <= u64::MAX,
    ensures
        take_blob(blob(bytes) + rest) == Some((bytes, rest)),
{
    byte_ranges();
    uint_round_trip(bytes.len(), 8, bytes + rest);
    raw_round_trip(bytes, rest);
    assert(blob(bytes) + rest =~= le_bytes(bytes.len(), 8) + (bytes + rest));
}

/// An integer is read exactly where there are enough bytes, and what was read,
/// written again, gives back the bytes.
pub proof fn uint_rewritten(bytes: Seq<u8>, width: nat)
    ensures
        take_uint(bytes, width) is Some <==> width <= bytes.len(),
        take_uint(bytes, width) matches Some((value, rest)) ==> value < byte_range(width) && bytes == le_bytes(
            value,
            width,
        ) + rest,
{
    if width <= bytes.len() {
        le_value_range(bytes.take(width as int));
        le_rewritten(bytes.take(width as int));
        assert(bytes =~= bytes.take(width as int) + bytes.skip(width as int));
    }
}

/// Raw bytes are read exactly where there are enough, and they and what follows
/// them are the bytes.
pub proof fn raw_rewritten(bytes: Seq<u8>, count: nat)
    ensures
        take_raw(bytes, count) is Some <==> count <= bytes.len(),
        take_raw(bytes, count) matches Some((raw, rest)) ==> raw.len() == count && bytes == raw + rest,
{
    if count <= bytes.len() {
        assert(bytes =~= bytes.take(count as int) + bytes.skip(count as int));
    }
}

/// What was read as a byte string, written again, gives back the bytes.
pub proof fn blob_rewritten(bytes: Seq<u8>)
    ensures
        take_blob(bytes) matches Some((string, rest)) ==> string.len() <= u64::MAX && bytes == blob(string) + rest,
{
    byte_ranges();
    uint_rewritten(bytes, 8);
    if let Some((count, after)) = take_uint(bytes, 8) {
        raw_rewritten(after, count);
        if let Some((string, rest)) = take_raw(after, count) {
            join_associates(le_bytes(count, 8), string, rest);
        }
    }
}

/// A byte string stands as it is behind the eight digits of its length.
pub proof fn blob_layout(bytes: Seq<u8>)
    ensures
        blob(bytes).len() == 8 + bytes.len(),
        blob(bytes).skip(8) == bytes,
        forall|place: nat| place < 8 ==> #[trigger] blob(bytes)[place as int] == (bytes.len() / byte_range(place)) % 256,
{
    le_bytes_len(bytes.len(), 8);
    assert(blob(bytes).skip(8) =~= bytes);
    assert forall|place: nat| place < 8 implies #[trigger] blob(bytes)[place as int] == (bytes.len() / byte_range(
        place,
    )) % 256 by {
        bytes_are_digits(bytes.len(), 8, place);
    }
}

/// More bytes at the end do not change the integer in front.
pub proof fn uint_extension(bytes: Seq<u8>, width: nat, more: Seq<u8>)
    requires
        take_uint(bytes, width) is Some,
    ensures
        take_uint(bytes + more, width) == Some(
            (take_uint(bytes, width).unwrap().0, take_uint(bytes, width).unwrap().1 + more),
        ),
{
    assert((bytes + more).take(width as int) =~= bytes.take(width as int));
    assert((bytes + more).skip(width as int) =~= bytes.skip(width as int) + more);
}

/// More bytes at the end do not change the raw bytes in front.
pub proof fn raw_extension(bytes: Seq<u8>, count: nat, more: Seq<u8>)
    requires
        take_raw(bytes, count) is Some,
    ensures
        take_raw(bytes + more, count) == Some(
            (take_raw(bytes, count).unwrap().0, take_raw(bytes, count).unwrap().1 + more),
        ),
{
    assert((bytes + more).take(count as int) =~= bytes.take(count as int));
    assert((bytes + more).skip(count as int) =~= bytes.skip(count as int) + more);
}

/// More bytes at the end do not change the byte string in front.
pub proof fn blob_extension(bytes: Seq<u8>, more: Seq<u8>)
    requires
        take_blob(bytes) is Some,
    ensures
        take_blob(bytes + more) == Some((take_blob(bytes).unwrap().0, take_blob(bytes).unwrap().1 + more)),
{
    uint_extension(bytes, 8, more);
    let (count, rest) = take_uint(bytes, 8).unwrap();
    raw_extension(rest, count, more);
}

// ---------------------------------------------------------------------------
// Buffers
// ---------------------------------------------------------------------------

/// Calls `BytesMut::with_capacity`, which makes a buffer that holds nothing.
#[verifier::external_body]
pub(crate) fn new_pool(capacity: usize) -> (pool: BytesMut)
    requires
        capacity <= isize::MAX,
    ensures
        buffer_bytes(pool) == Seq::<u8>::empty(),
{
    BytesMut::with_capacity(capacity)
}

/// Calls `BytesMut::extend_from_slice`, which appends the bytes of the slice.
/// A buffer holds at most `isize::MAX` bytes.
#[verifier::external_body]
pub(crate) fn append(pool: &mut BytesMut, bytes: &[u8])
    requires
        buffer_bytes(*old(pool)).len() + bytes@.len() <= isize::MAX,
    ensures
        buffer_bytes(*final(pool)) == buffer_bytes(*old(pool)) + bytes@,
{
    pool.extend_from_slice(bytes);
}

/// Calls `BytesMut::split`, which hands out all that the buffer holds and
/// leaves the buffer empty.
#[verifier::external_body]
pub(crate) fn split(pool: &mut BytesMut) -> (filled: BytesMut)
    ensures
        buffer_bytes(filled) == buffer_bytes(*old(pool)),
        buffer_bytes(*final(pool)) == Seq::<u8>::empty(),
{
    pool.split()
}

/// Calls `BytesMut::to_vec` (through its `Deref` to a slice), which copies the
/// bytes that the buffer holds.
#[verifier::external_body]
pub(crate) fn copied(buffer: &BytesMut) -> (bytes: Vec<u8>)
    ensures
        bytes@ == buffer_bytes(*buffer),
{
    buffer.to_vec()
}

// ---------------------------------------------------------------------------
// Writing fields
// ---------------------------------------------------------------------------

/// Calls `bincode::serialize_into` on an integer of one byte, which appends
/// that byte. The call fails only where the buffer cannot grow.
#[verifier::external_body]
pub(crate) fn put_u8(pool: &mut BytesMut, value: u8)
    requires
        buffer_bytes(*old(pool)).len() + 1 <= isize::MAX,
    ensures
        buffer_bytes(*final(pool)) == buffer_bytes(*old(pool)).push(value),
{
    bincode::serialize_into(pool.writer(), &value).unwrap();
}

/// Calls `bincode::serialize_into` on an integer of two bytes, which appends
/// its bytes, the least significant first.
#[verifier::external_body]
pub(crate) fn put_u16(pool: &mut BytesMut, value: u16)
    requires
        buffer_bytes(*old(pool)).len() + 2 <= isize::MAX,
    ensures
        buffer_bytes(*final(pool)) == buffer_bytes(*old(pool)) + le_bytes(value as nat, 2),
{
    bincode::serialize_into(pool.writer(), &value).unwrap();
}

/// Calls `bincode::serialize_into` on an integer of four bytes, which appends
/// its bytes, the least significant first.
#[verifier::external_body]
pub(crate) fn put_u32(pool: &mut BytesMut, value: u32)
    requires
        buffer_bytes(*old(pool)).len() + 4 <= isize::MAX,
    ensures
        buffer_bytes(*final(pool)) == buffer_bytes(*old(pool)) + le_bytes(value as nat, 4),
{
    bincode::serialize_into(pool.writer(), &value).unwrap();
}

/// Calls `bincode::serialize_into` on an integer of eight bytes, which appends
/// its bytes, the least significant first.
#[verifier::external_body]
pub(crate) fn put_u64(pool: &mut BytesMut, value: u64)
    requires
        buffer_bytes(*old(pool)).len() + 8 <= isize::MAX,
    ensures
        buffer_bytes(*final(pool)) == buffer_bytes(*old(pool)) + le_bytes(value as nat, 8),
{
    bincode::serialize_into(pool.writer(), &value).unwrap();
}

/// Calls `bincode::serialize_into` on a slice of bytes, which appends the
/// length of the slice in eight bytes, the least significant first, and then
/// the bytes of the slice.
#[verifier::external_body]
pub(crate) fn put_blob(pool: &mut BytesMut, bytes: &[u8])
    requires
        buffer_bytes(*old(pool)).len() + 8 + bytes@.len() <= isize::MAX,
    ensures
        buffer_bytes(*final(pool)) == buffer_bytes(*old(pool)) + blob(bytes@),
{
    bincode::serialize_into(pool.writer(), bytes).unwrap();
}

/// Appends the bytes of an array, with no length before them.
pub(crate) fn put_array<const N: usize>(pool: &mut BytesMut, bytes: &[u8; N])
    requires
        buffer_bytes(*old(pool)).len() + N <= isize::MAX,
    ensures
        buffer_bytes(*final(pool)) == buffer_bytes(*old(pool)) + bytes@,
{
    let mut i: usize = 0;
    while i < N
        invariant
            i <= N,
            bytes@.len() == N,
            buffer_bytes(*old(pool)).len() + N <= isize::MAX,
            buffer_bytes(*pool) == buffer_bytes(*old(pool)) + bytes@.take(i as int),
        decreases N - i,
    {
        put_u8(pool, bytes[i]);
        assert(bytes@.take(i + 1) =~= bytes@.take(i as int).push(bytes@[i as int]));
        i += 1;
    }
    assert(bytes@.take(N as int) =~= bytes@);
}

// ---------------------------------------------------------------------------
// Reading fields
// ---------------------------------------------------------------------------

/// Calls `bincode::deserialize` for an integer of one byte: the first byte, or
/// an error where there is none. Bytes behind it are allowed.
#[verifier::external_body]
fn decode_u8(buffer: &[u8]) -> (value: Option<u8>)
    ensures
        buffer@.len() >= 1 ==> value == Some(buffer@[0]),
        buffer@.len() < 1 ==> value is None,
{
    bincode::deserialize::<u8>(buffer).ok()
}

/// Calls `bincode::deserialize` for an integer of two bytes: the number that
/// the first two bytes spell, or an error where there are fewer. Bytes behind
/// them are allowed.
#[verifier::external_body]
fn decode_u16(buffer: &[u8]) -> (value: Option<u16>)
    ensures
        buffer@.len() >= 2 ==> value == Some(le_value(buffer@.take(2)) as u16),
        buffer@.len() < 2 ==> value is None,
{
    bincode::deserialize::<u16>(buffer).ok()
}

/// Calls `bincode::deserialize` for an integer of four bytes: the number that
/// the first four bytes spell, or an error where there are fewer. Bytes behind
/// them are allowed.
#[verifier::external_body]
fn decode_u32(buffer: &[u8]) -> (value: Option<u32>)
    ensures
        buffer@.len() >= 4 ==> value == Some(le_value(buffer@.take(4)) as u32),
        buffer@.len() < 4 ==> value is None,
{
    bincode::deserialize::<u32>(buffer).ok()
}

/// Calls `bincode::deserialize` for an integer of eight bytes: the number that
/// the first eight bytes spell, or an error where there are fewer. Bytes behind
/// them are allowed.
#[verifier::external_body]
fn decode_u64(buffer: &[u8]) -> (value: Option<u64>)
    ensures
        buffer@.len() >= 8 ==> value == Some(le_value(buffer@.take(8)) as u64),
        buffer@.len() < 8 ==> value is None,
{
    bincode::deserialize::<u64>(buffer).ok()
}

/// Calls `bincode::deserialize` for a borrowed slice of bytes: eight bytes
/// spell its length, and so many bytes follow; an error where there are fewer.
/// Bytes behind them are allowed.
#[verifier::external_body]
fn decode_blob<'a>(buffer: &'a [u8]) -> (bytes: Option<&'a [u8]>)
    ensures
        match take_blob(buffer@) {
            Some((taken, _)) => bytes matches Some(b) && b@ == taken,
            None => bytes is None,
        },
{
    bincode::deserialize::<&'a [u8]>(buffer).ok()
}

/// Reads one byte and hands out what follows it.
pub(crate) fn read_u8<'a>(buffer: &'a [u8]) -> (read: Option<(u8, &'a [u8])>)
    ensures
        match read {
            Some((value, rest)) => buffer@.len() >= 1 && value == buffer@[0] && rest@ == buffer@.skip(1),
            None => buffer@.len() < 1,
        },
{
    match decode_u8(buffer) {
        Some(value) => Some((value, slice_subrange(buffer, 1, buffer.len()))),
        None => None,
    }
}

/// Reads an integer of two bytes and hands out what follows it.
pub(crate) fn read_u16<'a>(buffer: &'a [u8]) -> (read: Option<(u16, &'a [u8])>)
    ensures
        match read {
            Some((value, rest)) => take_uint(buffer@, 2) == Some((value as nat, rest@)),
            None => take_uint(buffer@, 2) is None,
        },
{
    match decode_u16(buffer) {
        Some(value) => {
            proof {
                byte_ranges();
                le_value_range(buffer@.take(2));
            }
            Some((value, slice_subrange(buffer, 2, buffer.len())))
        },
        None => None,
    }
}

/// Reads an integer of four bytes and hands out what follows it.
pub(crate) fn read_u32<'a>(buffer: &'a [u8]) -> (read: Option<(u32, &'a [u8])>)
    ensures
        match read {
            Some((value, rest)) => take_uint(buffer@, 4) == Some((value as nat, rest@)),
            None => take_uint(buffer@, 4) is None,
        },
{
    match decode_u32(buffer) {
        Some(value) => {
            proof {
                byte_ranges();
                le_value_range(buffer@.take(4));
            }
            Some((value, slice_subrange(buffer, 4, buffer.len())))
        },
        None => None,
    }
}

/// Reads an integer of eight bytes and hands out what follows it.
pub(crate) fn read_u64<'a>(buffer: &'a [u8]) -> (read: Option<(u64, &'a [u8])>)
    ensures
        match read {
            Some((value, rest)) => take_uint(buffer@, 8) == Some((value as nat, rest@)),
            None => take_uint(buffer@, 8) is None,
        },
{
    match decode_u64(buffer) {
        Some(value) => {
            proof {
                byte_ranges();
                le_value_range(buffer@.take(8));
            }
            Some((value, slice_subrange(buffer, 8, buffer.len())))
        },
        None => None,
    }
}

/// Reads a byte string and hands out what follows it.
pub(crate) fn read_blob<'a>(buffer: &'a [u8]) -> (read: Option<(&'a [u8], &'a [u8])>)
    ensures
        match read {
            Some((bytes, rest)) => take_blob(buffer@) == Some((bytes@, rest@)),
            None => take_blob(buffer@) is None,
        },
{
    match decode_blob(buffer) {
        Some(bytes) => {
            let total: usize = buffer.len();
            assert(8 + bytes@.len() <= total);
            let rest = slice_subrange(buffer, 8 + bytes.len(), total);
            assert(rest@ =~= buffer@.skip(8).skip(bytes@.len() as int));
            Some((bytes, rest))
        },
        None => None,
    }
}

/// Reads the bytes of an array, which have no length before them, and hands
/// out what follows them.
pub(crate) fn read_array<'a, const N: usize>(buffer: &'a [u8]) -> (read: Option<([u8; N], &'a [u8])>)
    ensures
        match read {
            Some((bytes, rest)) => take_raw(buffer@, N as nat) == Some((bytes@, rest@)),
            None => take_raw(buffer@, N as nat) is None,
        },
{
    let mut bytes: [u8; N] = [0u8; N];
    let mut rest: &'a [u8] = buffer;
    let mut i: usize = 0;
    while i < N
        invariant
            i <= N,
            i <= buffer@.len(),
            bytes@.len() == N,
            bytes@.take(i as int) == buffer@.take(i as int),
            rest@ == buffer@.skip(i as int),
        decreases N - i,
    {
        match read_u8(rest) {
            Some((value, next)) => {
                assert(value == buffer@[i as int]);
                bytes[i] = value;
                assert(bytes@.take(i + 1) =~= buffer@.take(i + 1)) by {
                    assert forall|k: int| 0 <= k < i implies bytes@[k] == buffer@[k] by {
                        assert(bytes@.take(i as int)[k] == buffer@.take(i as int)[k]);
                    }
                }
                assert(next@ =~= buffer@.skip(i + 1));
                rest = next;
                i += 1;
            },
            None => {
                return None;
            },
        }
    }
    assert(bytes@.take(N as int) =~= bytes@);
    Some((bytes, rest))
}

/// Whether two slices hold the same bytes.
pub fn same_bytes(left: &[u8], right: &[u8]) -> (same: bool)
    ensures
        same == (left@ == right@),
{
    if left.len() != right.len() {
        return false;
    }
    let mut i: usize = 0;
    while i < left.len()
        invariant
            i <= left@.len(),
            left@.len() == right@.len(),
            forall|k: int| 0 <= k < i ==> left@[k] == right@[k],
        decreases left.len() - i,
    {
        if left[i] != right[i] {
            return false;
        }
        i += 1;
    }
    assert(left@ =~= right@);
    true
}

} // verus!
