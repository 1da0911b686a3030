//! The packets that nodes and clients exchange, each with its byte format.

use bytes::BytesMut;
use vstd::prelude::*;
use vstd::slice::slice_to_vec;

use crate::error::{ErrorKind, NodeError};
use crate::wire;
use crate::wire::{
    put_array, put_blob, put_u16, put_u32, put_u64, read_array, read_blob, read_u16, read_u32,
    read_u64,
};

verus! {

// ---------------------------------------------------------------------------
// What a byte format is
// ---------------------------------------------------------------------------

/// Values that have a byte format.
pub trait Wire: Sized {
    /// Whether the value fits the fields of its format.
    spec fn fits(self) -> bool;

    /// The bytes that stand for the value.
    spec fn encoding(self) -> Seq<u8>;

    /// The value that `bytes` start with, and what follows it.
    spec fn parse(bytes: Seq<u8>) -> Option<(Self, Seq<u8>)>;

    /// What is written is read back, whatever follows it.
    proof fn round_trip(self, rest: Seq<u8>)
        requires
            self.fits(),
        ensures
            Self::parse(self.encoding() + rest) == Some((self, rest)),
    ;

    /// More bytes at the end do not change what is read in front.
    proof fn extension(bytes: Seq<u8>, more: Seq<u8>)
        requires
            Self::parse(bytes) is Some,
        ensures
            Self::parse(bytes + more) == Some((Self::parse(bytes).unwrap().0, Self::parse(bytes).unwrap().1 + more)),
    ;

    /// What was read, written again, gives back the bytes.
    proof fn rewritten(bytes: Seq<u8>)
        requires
            Self::parse(bytes) is Some,
        ensures
            Self::parse(bytes).unwrap().0.fits(),
            bytes == Self::parse(bytes).unwrap().0.encoding() + Self::parse(bytes).unwrap().1,
    ;
}

/// Data that can be written in the format of its model.
pub trait Encode {
    type Model: Wire;

    /// The value that the data stands for.
    spec fn model(&self) -> Self::Model;

    /// Data in memory fits the fields of its format.
    proof fn model_fits(&self)
        ensures
            self.model().fits(),
    ;

    /// Appends the bytes that stand for the data.
    fn write(&self, pool: &mut BytesMut)
        requires
            wire::buffer_bytes(*old(pool)).len() + self.model().encoding().len() <= isize::MAX,
        ensures
            wire::buffer_bytes(*final(pool)) == wire::buffer_bytes(*old(pool)) + self.model().encoding(),
    ;
}

/// Data that can be read from bytes, which it may borrow.
pub trait Decode<'a>: Encode + Sized {
    /// Reads the data that the buffer starts with, and hands out what follows.
    fn read(buffer: &'a [u8]) -> (read: Option<(Self, &'a [u8])>)
        ensures
            match read {
                Some((data, rest)) => Self::Model::parse(buffer@) == Some((data.model(), rest@)),
                None => Self::Model::parse(buffer@) is None,
            },
    ;
}

/// Whether data with the given encoding was written behind what a buffer held,
/// all of it was handed out as a packet, and the buffer was left empty.
pub open spec fn handed_out(before: Seq<u8>, encoding: Seq<u8>, packet: Seq<u8>, after: Seq<u8>) -> bool {
    packet == before + encoding && after == Seq::<u8>::empty()
}

/// Writes data behind what a reusable buffer holds, hands out all of it and
/// leaves the buffer empty.
pub fn serialize_into<T: Encode>(pool: &mut BytesMut, data: &T) -> (packet: BytesMut)
    requires
        wire::buffer_bytes(*old(pool)).len() + data.model().encoding().len() <= isize::MAX,
    ensures
        handed_out(
            wire::buffer_bytes(*old(pool)),
            data.model().encoding(),
            wire::buffer_bytes(packet),
            wire::buffer_bytes(*final(pool)),
        ),
{
    data.write(pool);
    wire::split(pool)
}

/// Reads data from the front of a buffer, without copying what it can borrow.
/// Bytes behind the data are allowed.
pub fn deserialize_packet<'a, T: Decode<'a>>(buffer: &'a [u8]) -> (packet: Result<T, NodeError>)
    ensures
        match T::Model::parse(buffer@) {
            Some((value, _)) => packet matches Ok(data) && data.model() == value,
            None => packet matches Err(error) && error.is(ErrorKind::InvalidData, ""@),
        },
{
    match T::read(buffer) {
        Some((data, _)) => Ok(data),
        None => Err(NodeError::new(ErrorKind::InvalidData, "")),
    }
}

/// What `serialize_into` writes into an empty buffer, `deserialize_packet`
/// reads back.
pub proof fn packet_round_trip<T: Encode>(data: T)
    ensures
        T::Model::parse(data.model().encoding()) == Some((data.model(), Seq::<u8>::empty())),
{
    data.model_fits();
    data.model().round_trip(Seq::empty());
    assert(data.model().encoding() + Seq::<u8>::empty() =~= data.model().encoding());
}

/// Of what `serialize_into` writes into an empty buffer, no part that ends too
/// early is read.
pub proof fn cut_packet_is_refused<T: Encode>(data: T, count: int)
    requires
        0 <= count < data.model().encoding().len(),
    ensures
        T::Model::parse(data.model().encoding().take(count)) is None,
{
    data.model_fits();
    cut_encoding_is_refused(data.model(), count);
}

/// No part of an encoding that ends too early is read.
pub proof fn cut_encoding_is_refused<M: Wire>(value: M, count: int)
    requires
        value.fits(),
        0 <= count < value.encoding().len(),
    ensures
        M::parse(value.encoding().take(count)) is None,
{
    let all = value.encoding();
    let part = all.take(count);
    if M::parse(part) is Some {
        M::extension(part, all.skip(count));
        assert(part + all.skip(count) =~= all);
        value.round_trip(Seq::empty());
        assert(all + Seq::<u8>::empty() =~= all);
        assert((M::parse(part).unwrap().1 + all.skip(count)).len() > 0);
    }
}

/// A value is read from bytes exactly if it fits its format and the bytes are
/// its encoding and what follows: nothing else is taken for it, and no value is
/// taken for another.
pub proof fn read_exactly_what_was_written<M: Wire>(bytes: Seq<u8>, value: M, rest: Seq<u8>)
    ensures
        M::parse(bytes) == Some((value, rest)) <==> value.fits() && bytes == value.encoding() + rest,
{
    if M::parse(bytes) is Some {
        M::rewritten(bytes);
    }
    if value.fits() {
        value.round_trip(rest);
    }
}

/// What a buffer held goes out in front of what was written, and nothing is left
/// in it.
pub proof fn packet_follows_what_was_held(before: Seq<u8>, encoding: Seq<u8>, packet: Seq<u8>, after: Seq<u8>)
    ensures
        handed_out(before, encoding, packet, after) <==> packet == before + encoding && after.len() == 0,
{
    if after.len() == 0 {
        assert(after =~= Seq::<u8>::empty());
    }
}

/// A buffer that is used again leaks nothing of what was written before: from an
/// empty buffer, each of two packets is just what was written for it.
pub proof fn reused_buffer_leaks_nothing<A: Encode, B: Encode>(
    first: A,
    first_packet: Seq<u8>,
    between: Seq<u8>,
    second: B,
    second_packet: Seq<u8>,
    after: Seq<u8>,
)
    requires
        handed_out(Seq::empty(), first.model().encoding(), first_packet, between),
        handed_out(between, second.model().encoding(), second_packet, after),
    ensures
        first_packet == first.model().encoding(),
        second_packet == second.model().encoding(),
        after == Seq::<u8>::empty(),
{
    assert(Seq::<u8>::empty() + first.model().encoding() =~= first.model().encoding());
    assert(Seq::<u8>::empty() + second.model().encoding() =~= second.model().encoding());
}

// ---------------------------------------------------------------------------
// Lists
// ---------------------------------------------------------------------------

/// The encodings of the items, one behind the other.
pub open spec fn items_encoding<M: Wire>(items: Seq<M>) -> Seq<u8>
    decreases items.len(),
{
    if items.len() == 0 {
        Seq::empty()
    } else {
        items[0].encoding() + items_encoding(items.drop_first())
    }
}

/// The `count` items that `bytes` start with, and what follows them.
pub open spec fn parse_items<M: Wire>(count: nat, bytes: Seq<u8>) -> Option<(Seq<M>, Seq<u8>)>
    decreases count,
{
    if count == 0 {
        Some((Seq::empty(), bytes))
    } else {
        match M::parse(bytes) {
            None => None,
            Some((first, bytes)) => match parse_items::<M>((count - 1) as nat, bytes) {
                None => None,
                Some((others, rest)) => Some((seq![first] + others, rest)),
            },
        }
    }
}

/// One more item adds its encoding at the end.
pub proof fn items_encoding_push<M: Wire>(items: Seq<M>, item: M)
    ensures
        items_encoding(items.push(item)) == items_encoding(items) + item.encoding(),
    decreases items.len(),
{
    if items.len() == 0 {
        assert(items.push(item).drop_first() =~= items);
        assert(items_encoding(items) =~= Seq::empty());
        assert(items_encoding(items.push(item)) =~= item.encoding());
    } else {
        items_encoding_push(items.drop_first(), item);
        assert(items.push(item).drop_first() =~= items.drop_first().push(item));
        assert(items_encoding(items.push(item)) =~= items_encoding(items) + item.encoding());
    }
}

/// The items in front take no more bytes than all of them.
pub proof fn items_encoding_prefix<M: Wire>(items: Seq<M>, count: nat)
    requires
        count <= items.len(),
    ensures
        items_encoding(items.take(count as int)).len() <= items_encoding(items).len(),
    decreases items.len() - count,
{
    if count == items.len() {
        assert(items.take(count as int) =~= items);
    } else {
        items_encoding_prefix(items, count + 1);
        items_encoding_push(items.take(count as int), items[count as int]);
        assert(items.take(count as int + 1) =~= items.take(count as int).push(items[count as int]));
    }
}

/// Items are read back, whatever follows them.
proof fn items_round_trip<M: Wire>(items: Seq<M>, rest: Seq<u8>)
    requires
        forall|i: int| 0 <= i < items.len() ==> (#[trigger] items[i]).fits(),
    ensures
        parse_items::<M>(items.len(), items_encoding(items) + rest) == Some((items, rest)),
    decreases items.len(),
{
    if items.len() == 0 {
        assert(items =~= Seq::<M>::empty());
        assert(items_encoding(items) + rest =~= rest);
    } else {
        let others = items.drop_first();
        assert forall|i: int| 0 <= i < others.len() implies (#[trigger] others[i]).fits() by {
            assert(items[i + 1].fits());
        }
        items_round_trip(others, rest);
        items[0].round_trip(items_encoding(others) + rest);
        assert(items_encoding(items) + rest =~= items[0].encoding() + (items_encoding(others) + rest));
        assert(seq![items[0]] + others =~= items);
    }
}

/// More bytes at the end do not change the items in front.
proof fn items_extension<M: Wire>(count: nat, bytes: Seq<u8>, more: Seq<u8>)
    requires
        parse_items::<M>(count, bytes) is Some,
    ensures
        parse_items::<M>(count, bytes + more) == Some(
            (parse_items::<M>(count, bytes).unwrap().0, parse_items::<M>(count, bytes).unwrap().1 + more),
        ),
    decreases count,
{
    if count > 0 {
        M::extension(bytes, more);
        items_extension::<M>((count - 1) as nat, M::parse(bytes).unwrap().1, more);
    }
}

/// Items that were read, written again, give back the bytes.
proof fn items_rewritten<M: Wire>(count: nat, bytes: Seq<u8>)
    requires
        parse_items::<M>(count, bytes) is Some,
    ensures
        ({
            let (items, rest) = parse_items::<M>(count, bytes).unwrap();
            &&& items.len() == count
            &&& forall|i: int| 0 <= i < items.len() ==> (#[trigger] items[i]).fits()
            &&& bytes == items_encoding(items) + rest
        }),
    decreases count,
{
    let (items, rest) = parse_items::<M>(count, bytes).unwrap();
    if count == 0 {
        assert(items_encoding(items) + rest =~= bytes);
    } else {
        let (first, after) = M::parse(bytes).unwrap();
        let (others, last) = parse_items::<M>((count - 1) as nat, after).unwrap();
        M::rewritten(bytes);
        items_rewritten::<M>((count - 1) as nat, after);
        assert(items.drop_first() =~= others);
        assert forall|i: int| 0 <= i < items.len() implies (#[trigger] items[i]).fits() by {
            if i > 0 {
                assert(others[i - 1].fits());
            }
        }
        wire::join_associates(first.encoding(), items_encoding(others), rest);
    }
}

/// A list is the digits of its length and then its items, one behind the other:
/// an empty list has no items, and one more item adds its encoding at the end.
pub proof fn list_layout<M: Wire>(items: Seq<M>, item: M)
    ensures
        items.encoding() == wire::le_bytes(items.len(), 8) + items_encoding(items),
        items_encoding(Seq::<M>::empty()) == Seq::<u8>::empty(),
        items_encoding(items.push(item)) == items_encoding(items) + item.encoding(),
{
    items_encoding_push(items, item);
}

impl<M: Wire> Wire for Seq<M> {
    open spec fn fits(self) -> bool {
        &&& self.len() <= u64::MAX
        &&& forall|i: int| 0 <= i < self.len() ==> (#[trigger] self[i]).fits()
    }

    open spec fn encoding(self) -> Seq<u8> {
        wire::le_bytes(self.len(), 8) + items_encoding(self)
    }

    open spec fn parse(bytes: Seq<u8>) -> Option<(Self, Seq<u8>)> {
        match wire::take_uint(bytes, 8) {
            None => None,
            Some((count, bytes)) => parse_items::<M>(count, bytes),
        }
    }

    proof fn round_trip(self, rest: Seq<u8>) {
        wire::byte_ranges();
        wire::uint_round_trip(self.len(), 8, items_encoding(self) + rest);
        items_round_trip(self, rest);
        assert(self.encoding() + rest =~= wire::le_bytes(self.len(), 8) + (items_encoding(self) + rest));
    }

    proof fn extension(bytes: Seq<u8>, more: Seq<u8>) {
        wire::uint_extension(bytes, 8, more);
        let (count, rest) = wire::take_uint(bytes, 8).unwrap();
        items_extension::<M>(count, rest, more);
    }

    proof fn rewritten(bytes: Seq<u8>) {
        wire::byte_ranges();
        wire::uint_rewritten(bytes, 8);
        let (count, after) = wire::take_uint(bytes, 8).unwrap();
        items_rewritten::<M>(count, after);
        let (items, rest) = parse_items::<M>(count, after).unwrap();
        wire::join_associates(wire::le_bytes(count, 8), items_encoding(items), rest);
    }
}

/// The values that the items of a list stand for.
pub open spec fn models<T: Encode>(items: Seq<T>) -> Seq<T::Model> {
    Seq::new(items.len(), |i: int| items[i].model())
}

impl<T: Encode> Encode for Vec<T> {
    type Model = Seq<T::Model>;

    open spec fn model(&self) -> Seq<T::Model> {
        models(self@)
    }

    proof fn model_fits(&self) {
        wire::vec_fits(self);
        assert forall|i: int| 0 <= i < self.model().len() implies (#[trigger] self.model()[i]).fits() by {
            self@[i].model_fits();
        }
    }

    fn write(&self, pool: &mut BytesMut) {
        proof {
            wire::le_bytes_len(self@.len(), 8);
        }
        let ghost head = wire::buffer_bytes(*pool) + wire::le_bytes(self@.len(), 8);
        put_u64(pool, self.len() as u64);
        let mut i: usize = 0;
        assert(wire::buffer_bytes(*pool) =~= head + items_encoding(self.model().take(0)));
        while i < self.len()
            invariant
                i <= self@.len(),
                self.model().len() == self@.len(),
                head.len() + items_encoding(self.model()).len() <= isize::MAX,
                wire::buffer_bytes(*pool) == head + items_encoding(self.model().take(i as int)),
            decreases self.len() - i,
        {
            let ghost written = self.model().take(i as int);
            proof {
                items_encoding_prefix(self.model(), (i + 1) as nat);
                items_encoding_push(written, self@[i as int].model());
                assert(self.model().take(i + 1) =~= written.push(self@[i as int].model()));
            }
            self[i].write(pool);
            assert(wire::buffer_bytes(*pool) =~= head + items_encoding(self.model().take(i + 1)));
            i += 1;
        }
        assert(self.model().take(self@.len() as int) =~= self.model());
        assert(wire::buffer_bytes(*pool) =~= wire::buffer_bytes(*old(pool)) + self.model().encoding());
    }
}

impl<'a, T: Decode<'a>> Decode<'a> for Vec<T> {
    fn read(buffer: &'a [u8]) -> (read: Option<(Self, &'a [u8])>) {
        let (count, start) = match read_u64(buffer) {
            Some(read) => read,
            None => return None,
        };
        let mut rest: &'a [u8] = start;
        let mut items: Vec<T> = Vec::new();
        let mut i: u64 = 0;
        assert(models(items@) =~= Seq::<T::Model>::empty());
        proof {
            if let Some((others, last)) = parse_items::<T::Model>(count as nat, start@) {
                assert(models(items@) + others =~= others);
            }
        }
        while i < count
            invariant
                i <= count,
                wire::take_uint(buffer@, 8) == Some((count as nat, start@)),
                match parse_items::<T::Model>((count - i) as nat, rest@) {
                    Some((others, last)) => parse_items::<T::Model>(count as nat, start@) == Some(
                        (models(items@) + others, last),
                    ),
                    None => parse_items::<T::Model>(count as nat, start@) is None,
                },
            decreases count - i,
        {
            let ghost before = models(items@);
            match T::read(rest) {
                Some((item, next)) => {
                    let ghost value = item.model();
                    items.push(item);
                    assert(models(items@) =~= before.push(value));
                    proof {
                        if let Some((others, last)) = parse_items::<T::Model>((count - i - 1) as nat, next@) {
                            assert(models(items@) + others =~= before + (seq![value] + others));
                        }
                    }
                    rest = next;
                    i += 1;
                },
                None => {
                    assert(parse_items::<T::Model>((count - i) as nat, rest@) is None);
                    return None;
                },
            }
        }
        assert(models(items@) + Seq::<T::Model>::empty() =~= models(items@));
        Some((items, rest))
    }
}

// ---------------------------------------------------------------------------
// Connection packets
// ---------------------------------------------------------------------------

/// The first packet on every connection: what kind of node speaks, its address
/// and, as a rule, the public key it is known by.
#[derive(Clone, Copy, Debug)]
pub struct ConnectionPacket<'a> {
    pub node_type: &'a [u8],
    pub address: &'a [u8],
    pub payload: &'a [u8],
}

/// What a connection packet says.
pub struct Introduction {
    pub node_type: Seq<u8>,
    pub address: Seq<u8>,
    pub payload: Seq<u8>,
}

impl Wire for Introduction {
    open spec fn fits(self) -> bool {
        &&& self.node_type.len() <= u64::MAX
        &&& self.address.len() <= u64::MAX
        &&& self.payload.len() <= u64::MAX
    }

    open spec fn encoding(self) -> Seq<u8> {
        wire::blob(self.node_type) + wire::blob(self.address) + wire::blob(self.payload)
    }

    open spec fn parse(bytes: Seq<u8>) -> Option<(Self, Seq<u8>)> {
        match wire::take_blob(bytes) {
            None => None,
            Some((node_type, bytes)) => match wire::take_blob(bytes) {
                None => None,
                Some((address, bytes)) => match wire::take_blob(bytes) {
                    None => None,
                    Some((payload, rest)) => Some((Introduction { node_type, address, payload }, rest)),
                },
            },
        }
    }

    proof fn round_trip(self, rest: Seq<u8>) {
        let third = wire::blob(self.payload) + rest;
        let second = wire::blob(self.address) + third;
        wire::blob_round_trip(self.payload, rest);
        wire::blob_round_trip(self.address, third);
        wire::blob_round_trip(self.node_type, second);
        assert(self.encoding() + rest =~= wire::blob(self.node_type) + second);
    }

    proof fn extension(bytes: Seq<u8>, more: Seq<u8>) {
        let second = wire::take_blob(bytes).unwrap().1;
        let third = wire::take_blob(second).unwrap().1;
        wire::blob_extension(bytes, more);
        wire::blob_extension(second, more);
        wire::blob_extension(third, more);
    }

    proof fn rewritten(bytes: Seq<u8>) {
        let (node_type, second) = wire::take_blob(bytes).unwrap();
        let (address, third) = wire::take_blob(second).unwrap();
        let (payload, rest) = wire::take_blob(third).unwrap();
        wire::blob_rewritten(bytes);
        wire::blob_rewritten(second);
        wire::blob_rewritten(third);
        wire::join_associates(wire::blob(node_type), wire::blob(address), third);
        wire::join_associates(wire::blob(node_type) + wire::blob(address), wire::blob(payload), rest);
    }
}

impl<'a> Encode for ConnectionPacket<'a> {
    type Model = Introduction;

    open spec fn model(&self) -> Introduction {
        Introduction { node_type: self.node_type@, address: self.address@, payload: self.payload@ }
    }

    proof fn model_fits(&self) {
        wire::slice_fits(self.node_type);
        wire::slice_fits(self.address);
        wire::slice_fits(self.payload);
    }

    fn write(&self, pool: &mut BytesMut) {
        proof {
            wire::blob_len(self.node_type@);
            wire::blob_len(self.address@);
            wire::blob_len(self.payload@);
        }
        put_blob(pool, self.node_type);
        put_blob(pool, self.address);
        put_blob(pool, self.payload);
        assert(wire::buffer_bytes(*pool) =~= wire::buffer_bytes(*old(pool)) + self.model().encoding());
    }
}

impl<'a> Decode<'a> for ConnectionPacket<'a> {
    fn read(buffer: &'a [u8]) -> (read: Option<(Self, &'a [u8])>) {
        let (node_type, rest) = match read_blob(buffer) {
            Some(read) => read,
            None => return None,
        };
        let (address, rest) = match read_blob(rest) {
            Some(read) => read,
            None => return None,
        };
        let (payload, rest) = match read_blob(rest) {
            Some(read) => read,
            None => return None,
        };
        Some((ConnectionPacket { node_type, address, payload }, rest))
    }
}

/// What a packet with a payload, or with none, says.
pub open spec fn introduction(node_type: Seq<u8>, address: Seq<u8>, payload: Option<&[u8]>) -> Introduction {
    Introduction {
        node_type,
        address,
        payload: match payload {
            Some(payload) => payload@,
            None => Seq::empty(),
        },
    }
}

/// No payload is an empty payload.
pub proof fn no_payload_is_an_empty_one(node_type: Seq<u8>, address: Seq<u8>, empty: &[u8])
    requires
        empty@.len() == 0,
    ensures
        introduction(node_type, address, None).encoding() == introduction(node_type, address, Some(empty)).encoding(),
{
    assert(empty@ =~= Seq::<u8>::empty());
}

/// Writes the connection packet that a node introduces itself with into a
/// reusable buffer.
pub fn send_connection_packet(node_type: &str, addr: &str, payload: Option<&[u8]>, pool: &mut BytesMut) -> (packet:
    BytesMut)
    requires
        wire::buffer_bytes(*old(pool)).len() + introduction(
            wire::text(node_type),
            wire::text(addr),
            payload,
        ).encoding().len() <= isize::MAX,
    ensures
        wire::buffer_bytes(packet) == wire::buffer_bytes(*old(pool)) + introduction(
            wire::text(node_type),
            wire::text(addr),
            payload,
        ).encoding(),
        wire::buffer_bytes(*final(pool)) == Seq::<u8>::empty(),
{
    let empty: [u8; 0] = [];
    let payload: &[u8] = match payload {
        Some(bytes) => bytes,
        None => empty.as_slice(),
    };
    let packet = ConnectionPacket { node_type: node_type.as_bytes(), address: addr.as_bytes(), payload };
    assert(empty@ =~= Seq::<u8>::empty());
    serialize_into(pool, &packet)
}

// ---------------------------------------------------------------------------
// Client transactions
// ---------------------------------------------------------------------------

/// What a client sends to a peer when it asks for a change: a key and a value,
/// the client's public key, and its signature over the key and the value.
#[derive(Clone, Copy, Debug)]
pub struct ClientTransaction<'a> {
    pub key: &'a [u8],
    pub value: &'a [u8],
    pub pubkey: &'a [u8],
    pub signed_tx: &'a [u8],
}

/// What a client transaction says.
pub struct ClientRequest {
    pub key: Seq<u8>,
    pub value: Seq<u8>,
    pub pubkey: Seq<u8>,
    pub signed_tx: Seq<u8>,
}

impl Wire for ClientRequest {
    open spec fn fits(self) -> bool {
        &&& self.key.len() <= u64::MAX
        &&& self.value.len() <= u64::MAX
        &&& self.pubkey.len() <= u64::MAX
        &&& self.signed_tx.len() <= u64::MAX
    }

    open spec fn encoding(self) -> Seq<u8> {
        wire::blob(self.key) + wire::blob(self.value) + wire::blob(self.pubkey) + wire::blob(self.signed_tx)
    }

    open spec fn parse(bytes: Seq<u8>) -> Option<(Self, Seq<u8>)> {
        match wire::take_blob(bytes) {
            None => None,
            Some((key, bytes)) => match wire::take_blob(bytes) {
                None => None,
                Some((value, bytes)) => match wire::take_blob(bytes) {
                    None => None,
                    Some((pubkey, bytes)) => match wire::take_blob(bytes) {
                        None => None,
                        Some((signed_tx, rest)) => Some(
                            (ClientRequest { key, value, pubkey, signed_tx }, rest),
                        ),
                    },
                },
            },
        }
    }

    proof fn round_trip(self, rest: Seq<u8>) {
        let fourth = wire::blob(self.signed_tx) + rest;
        let third = wire::blob(self.pubkey) + fourth;
        let second = wire::blob(self.value) + third;
        wire::blob_round_trip(self.signed_tx, rest);
        wire::blob_round_trip(self.pubkey, fourth);
        wire::blob_round_trip(self.value, third);
        wire::blob_round_trip(self.key, second);
        assert(self.encoding() + rest =~= wire::blob(self.key) + second);
    }

    proof fn extension(bytes: Seq<u8>, more: Seq<u8>) {
        let second = wire::take_blob(bytes).unwrap().1;
        let third = wire::take_blob(second).unwrap().1;
        let fourth = wire::take_blob(third).unwrap().1;
        wire::blob_extension(bytes, more);
        wire::blob_extension(second, more);
        wire::blob_extension(third, more);
        wire::blob_extension(fourth, more);
    }

    proof fn rewritten(bytes: Seq<u8>) {
        let (key, second) = wire::take_blob(bytes).unwrap();
        let (value, third) = wire::take_blob(second).unwrap();
        let (pubkey, fourth) = wire::take_blob(third).unwrap();
        let (signed_tx, rest) = wire::take_blob(fourth).unwrap();
        wire::blob_rewritten(bytes);
        wire::blob_rewritten(second);
        wire::blob_rewritten(third);
        wire::blob_rewritten(fourth);
        let upto_second = wire::blob(key) + wire::blob(value);
        let upto_third = upto_second + wire::blob(pubkey);
        wire::join_associates(wire::blob(key), wire::blob(value), third);
        wire::join_associates(upto_second, wire::blob(pubkey), fourth);
        wire::join_associates(upto_third, wire::blob(signed_tx), rest);
    }
}

impl<'a> Encode for ClientTransaction<'a> {
    type Model = ClientRequest;

    open spec fn model(&self) -> ClientRequest {
        ClientRequest {
            key: self.key@,
            value: self.value@,
            pubkey: self.pubkey@,
            signed_tx: self.signed_tx@,
        }
    }

    proof fn model_fits(&self) {
        wire::slice_fits(self.key);
        wire::slice_fits(self.value);
        wire::slice_fits(self.pubkey);
        wire::slice_fits(self.signed_tx);
    }

    fn write(&self, pool: &mut BytesMut) {
        proof {
            wire::blob_len(self.key@);
            wire::blob_len(self.value@);
            wire::blob_len(self.pubkey@);
            wire::blob_len(self.signed_tx@);
        }
        put_blob(pool, self.key);
        put_blob(pool, self.value);
        put_blob(pool, self.pubkey);
        put_blob(pool, self.signed_tx);
        assert(wire::buffer_bytes(*pool) =~= wire::buffer_bytes(*old(pool)) + self.model().encoding());
    }
}

impl<'a> Decode<'a> for ClientTransaction<'a> {
    fn read(buffer: &'a [u8]) -> (read: Option<(Self, &'a [u8])>) {
        let (key, rest) = match read_blob(buffer) {
            Some(read) => read,
            None => return None,
        };
        let (value, rest) = match read_blob(rest) {
            Some(read) => read,
            None => return None,
        };
        let (pubkey, rest) = match read_blob(rest) {
            Some(read) => read,
            None => return None,
        };
        let (signed_tx, rest) = match read_blob(rest) {
            Some(read) => read,
            None => return None,
        };
        Some((ClientTransaction { key, value, pubkey, signed_tx }, rest))
    }
}

// ---------------------------------------------------------------------------
// Requests between nodes
// ---------------------------------------------------------------------------

/// A change that the network agrees on and that every node appends to its log.
#[derive(Debug)]
pub struct Transaction {
    pub seq_counter: u32,
    pub view_number: u32,
    pub client_key: Vec<u8>,
    pub key: Vec<u8>,
    pub value: Vec<u8>,
    pub unsigned_msg: Vec<u8>,
    pub signed_msg: Vec<u8>,
}

/// What a transaction says.
pub struct Proposal {
    pub seq_counter: u32,
    pub view_number: u32,
    pub client_key: Seq<u8>,
    pub key: Seq<u8>,
    pub value: Seq<u8>,
    pub unsigned_msg: Seq<u8>,
    pub signed_msg: Seq<u8>,
}

impl View for Transaction {
    type V = Proposal;

    open spec fn view(&self) -> Proposal {
        Proposal {
            seq_counter: self.seq_counter,
            view_number: self.view_number,
            client_key: self.client_key@,
            key: self.key@,
            value: self.value@,
            unsigned_msg: self.unsigned_msg@,
            signed_msg: self.signed_msg@,
        }
    }
}

impl Transaction {
    /// How many bytes the transaction takes.
    pub fn size(&self) -> (size: u128)
        ensures
            size == self@.encoding().len(),
            size <= 48 + 5 * usize::MAX,
    {
        proof {
            wire::le_bytes_len(self.seq_counter as nat, 4);
            wire::le_bytes_len(self.view_number as nat, 4);
            wire::blob_len(self.client_key@);
            wire::blob_len(self.key@);
            wire::blob_len(self.value@);
            wire::blob_len(self.unsigned_msg@);
            wire::blob_len(self.signed_msg@);
        }
        48 + self.client_key.len() as u128 + self.key.len() as u128 + self.value.len() as u128
            + self.unsigned_msg.len() as u128 + self.signed_msg.len() as u128
    }

    /// A transaction that says the same.
    pub fn duplicate(&self) -> (copy: Transaction)
        ensures
            copy@ == self@,
    {
        Transaction {
            seq_counter: self.seq_counter,
            view_number: self.view_number,
            client_key: slice_to_vec(self.client_key.as_slice()),
            key: slice_to_vec(self.key.as_slice()),
            value: slice_to_vec(self.value.as_slice()),
            unsigned_msg: slice_to_vec(self.unsigned_msg.as_slice()),
            signed_msg: slice_to_vec(self.signed_msg.as_slice()),
        }
    }
}

impl Wire for Proposal {
    open spec fn fits(self) -> bool {
        &&& self.client_key.len() <= u64::MAX
        &&& self.key.len() <= u64::MAX
        &&& self.value.len() <= u64::MAX
        &&& self.unsigned_msg.len() <= u64::MAX
        &&& self.signed_msg.len() <= u64::MAX
    }

    open spec fn encoding(self) -> Seq<u8> {
        wire::le_bytes(self.seq_counter as nat, 4) + wire::le_bytes(self.view_number as nat, 4)
            + wire::blob(self.client_key) + wire::blob(self.key) + wire::blob(self.value)
            + wire::blob(self.unsigned_msg) + wire::blob(self.signed_msg)
    }

    open spec fn parse(bytes: Seq<u8>) -> Option<(Self, Seq<u8>)> {
        match wire::take_uint(bytes, 4) {
            None => None,
            Some((seq_counter, bytes)) => match wire::take_uint(bytes, 4) {
                None => None,
                Some((view_number, bytes)) => match wire::take_blob(bytes) {
                    None => None,
                    Some((client_key, bytes)) => match wire::take_blob(bytes) {
                        None => None,
                        Some((key, bytes)) => match wire::take_blob(bytes) {
                            None => None,
                            Some((value, bytes)) => match wire::take_blob(bytes) {
                                None => None,
                                Some((unsigned_msg, bytes)) => match wire::take_blob(bytes) {
                                    None => None,
                                    Some((signed_msg, rest)) => Some(
                                        (
                                            Proposal {
                                                seq_counter: seq_counter as u32,
                                                view_number: view_number as u32,
                                                client_key,
                                                key,
                                                value,
                                                unsigned_msg,
                                                signed_msg,
                                            },
                                            rest,
                                        ),
                                    ),
                                },
                            },
                        },
                    },
                },
            },
        }
    }

    #[verifier::rlimit(40)]
    proof fn round_trip(self, rest: Seq<u8>) {
        wire::byte_ranges();
        let seventh = wire::blob(self.signed_msg) + rest;
        let sixth = wire::blob(self.unsigned_msg) + seventh;
        let fifth = wire::blob(self.value) + sixth;
        let fourth = wire::blob(self.key) + fifth;
        let third = wire::blob(self.client_key) + fourth;
        let second = wire::le_bytes(self.view_number as nat, 4) + third;
        let first = wire::le_bytes(self.seq_counter as nat, 4);
        assert(self.encoding() + rest == first + second) by {
            let upto_second = first + wire::le_bytes(self.view_number as nat, 4);
            let upto_third = upto_second + wire::blob(self.client_key);
            let upto_fourth = upto_third + wire::blob(self.key);
            let upto_fifth = upto_fourth + wire::blob(self.value);
            let upto_sixth = upto_fifth + wire::blob(self.unsigned_msg);
            wire::join_associates(upto_sixth, wire::blob(self.signed_msg), rest);
            wire::join_associates(upto_fifth, wire::blob(self.unsigned_msg), seventh);
            wire::join_associates(upto_fourth, wire::blob(self.value), sixth);
            wire::join_associates(upto_third, wire::blob(self.key), fifth);
            wire::join_associates(upto_second, wire::blob(self.client_key), fourth);
            wire::join_associates(first, wire::le_bytes(self.view_number as nat, 4), third);
        }
        wire::uint_round_trip(self.seq_counter as nat, 4, second);
        wire::uint_round_trip(self.view_number as nat, 4, third);
        wire::blob_round_trip(self.client_key, fourth);
        wire::blob_round_trip(self.key, fifth);
        wire::blob_round_trip(self.value, sixth);
        wire::blob_round_trip(self.unsigned_msg, seventh);
        wire::blob_round_trip(self.signed_msg, rest);
    }

    proof fn extension(bytes: Seq<u8>, more: Seq<u8>) {
        let second = wire::take_uint(bytes, 4).unwrap().1;
        let third = wire::take_uint(second, 4).unwrap().1;
        let fourth = wire::take_blob(third).unwrap().1;
        let fifth = wire::take_blob(fourth).unwrap().1;
        let sixth = wire::take_blob(fifth).unwrap().1;
        let seventh = wire::take_blob(sixth).unwrap().1;
        wire::uint_extension(bytes, 4, more);
        wire::uint_extension(second, 4, more);
        wire::blob_extension(third, more);
        wire::blob_extension(fourth, more);
        wire::blob_extension(fifth, more);
        wire::blob_extension(sixth, more);
        wire::blob_extension(seventh, more);
    }

    #[verifier::rlimit(40)]
    proof fn rewritten(bytes: Seq<u8>) {
        wire::byte_ranges();
        let (seq_counter, second) = wire::take_uint(bytes, 4).unwrap();
        let (view_number, third) = wire::take_uint(second, 4).unwrap();
        let (client_key, fourth) = wire::take_blob(third).unwrap();
        let (key, fifth) = wire::take_blob(fourth).unwrap();
        let (value, sixth) = wire::take_blob(fifth).unwrap();
        let (unsigned_msg, seventh) = wire::take_blob(sixth).unwrap();
        let (signed_msg, rest) = wire::take_blob(seventh).unwrap();
        wire::uint_rewritten(bytes, 4);
        wire::uint_rewritten(second, 4);
        wire::blob_rewritten(third);
        wire::blob_rewritten(fourth);
        wire::blob_rewritten(fifth);
        wire::blob_rewritten(sixth);
        wire::blob_rewritten(seventh);
        let upto_first = wire::le_bytes(seq_counter, 4);
        let upto_second = upto_first + wire::le_bytes(view_number, 4);
        let upto_third = upto_second + wire::blob(client_key);
        let upto_fourth = upto_third + wire::blob(key);
        let upto_fifth = upto_fourth + wire::blob(value);
        let upto_sixth = upto_fifth + wire::blob(unsigned_msg);
        wire::join_associates(upto_first, wire::le_bytes(view_number, 4), third);
        wire::join_associates(upto_second, wire::blob(client_key), fourth);
        wire::join_associates(upto_third, wire::blob(key), fifth);
        wire::join_associates(upto_fourth, wire::blob(value), sixth);
        wire::join_associates(upto_fifth, wire::blob(unsigned_msg), seventh);
        wire::join_associates(upto_sixth, wire::blob(signed_msg), rest);
    }
}

impl Encode for Transaction {
    type Model = Proposal;

    open spec fn model(&self) -> Proposal {
        self@
    }

    proof fn model_fits(&self) {
        wire::vec_fits(&self.client_key);
        wire::vec_fits(&self.key);
        wire::vec_fits(&self.value);
        wire::vec_fits(&self.unsigned_msg);
        wire::vec_fits(&self.signed_msg);
    }

    fn write(&self, pool: &mut BytesMut) {
        proof {
            wire::le_bytes_len(self.seq_counter as nat, 4);
            wire::le_bytes_len(self.view_number as nat, 4);
            wire::blob_len(self.client_key@);
            wire::blob_len(self.key@);
            wire::blob_len(self.value@);
            wire::blob_len(self.unsigned_msg@);
            wire::blob_len(self.signed_msg@);
        }
        put_u32(pool, self.seq_counter);
        put_u32(pool, self.view_number);
        put_blob(pool, self.client_key.as_slice());
        put_blob(pool, self.key.as_slice());
        put_blob(pool, self.value.as_slice());
        put_blob(pool, self.unsigned_msg.as_slice());
        put_blob(pool, self.signed_msg.as_slice());
        assert(wire::buffer_bytes(*pool) =~= wire::buffer_bytes(*old(pool)) + self.model().encoding());
    }
}

impl<'a> Decode<'a> for Transaction {
    fn read(buffer: &'a [u8]) -> (read: Option<(Self, &'a [u8])>) {
        let (seq_counter, rest) = match read_u32(buffer) {
            Some(read) => read,
            None => return None,
        };
        let (view_number, rest) = match read_u32(rest) {
            Some(read) => read,
            None => return None,
        };
        let (client_key, rest) = match read_blob(rest) {
            Some(read) => read,
            None => return None,
        };
        let (key, rest) = match read_blob(rest) {
            Some(read) => read,
            None => return None,
        };
        let (value, rest) = match read_blob(rest) {
            Some(read) => read,
            None => return None,
        };
        let (unsigned_msg, rest) = match read_blob(rest) {
            Some(read) => read,
            None => return None,
        };
        let (signed_msg, rest) = match read_blob(rest) {
            Some(read) => read,
            None => return None,
        };
        let transaction = Transaction {
            seq_counter,
            view_number,
            client_key: slice_to_vec(client_key),
            key: slice_to_vec(key),
            value: slice_to_vec(value),
            unsigned_msg: slice_to_vec(unsigned_msg),
            signed_msg: slice_to_vec(signed_msg),
        };
        Some((transaction, rest))
    }
}

/// What nodes ask of one another, over the network and within a node.
#[derive(Debug)]
pub enum ActorRequest {
    /// Start consensus on a transaction.
    ConsensusRequest { transaction: Transaction },
    /// A vote for a stage of consensus: the name of the stage, that name signed
    /// by the voter, and the voter's public key.
    PeerVote { vote_type: Vec<u8>, signed_msg: Vec<u8>, pubkey: [u8; 32] },
}

/// What a request says.
pub enum Message {
    Consensus(Proposal),
    Vote { stage: Seq<u8>, signature: Seq<u8>, voter: Seq<u8> },
}

impl View for ActorRequest {
    type V = Message;

    open spec fn view(&self) -> Message {
        match self {
            ActorRequest::ConsensusRequest { transaction } => Message::Consensus(transaction@),
            ActorRequest::PeerVote { vote_type, signed_msg, pubkey } => Message::Vote {
                stage: vote_type@,
                signature: signed_msg@,
                voter: pubkey@,
            },
        }
    }
}

impl Wire for Message {
    open spec fn fits(self) -> bool {
        match self {
            Message::Consensus(proposal) => proposal.fits(),
            Message::Vote { stage, signature, voter } => {
                &&& stage.len() <= u64::MAX
                &&& signature.len() <= u64::MAX
                &&& voter.len() == 32
            },
        }
    }

    open spec fn encoding(self) -> Seq<u8> {
        match self {
            Message::Consensus(proposal) => wire::le_bytes(0, 4) + proposal.encoding(),
            Message::Vote { stage, signature, voter } => {
                wire::le_bytes(1, 4) + wire::blob(stage) + wire::blob(signature) + voter
            },
        }
    }

    open spec fn parse(bytes: Seq<u8>) -> Option<(Self, Seq<u8>)> {
        match wire::take_uint(bytes, 4) {
            None => None,
            Some((variant, bytes)) => if variant == 0 {
                match Proposal::parse(bytes) {
                    None => None,
                    Some((proposal, rest)) => Some((Message::Consensus(proposal), rest)),
                }
            } else if variant == 1 {
                match wire::take_blob(bytes) {
                    None => None,
                    Some((stage, bytes)) => match wire::take_blob(bytes) {
                        None => None,
                        Some((signature, bytes)) => match wire::take_raw(bytes, 32) {
                            None => None,
                            Some((voter, rest)) => Some((Message::Vote { stage, signature, voter }, rest)),
                        },
                    },
                }
            } else {
                None
            },
        }
    }

    proof fn round_trip(self, rest: Seq<u8>) {
        wire::byte_ranges();
        match self {
            Message::Consensus(proposal) => {
                proposal.round_trip(rest);
                wire::uint_round_trip(0, 4, proposal.encoding() + rest);
                wire::join_associates(wire::le_bytes(0, 4), proposal.encoding(), rest);
            },
            Message::Vote { stage, signature, voter } => {
                let fourth = voter + rest;
                let third = wire::blob(signature) + fourth;
                let second = wire::blob(stage) + third;
                wire::raw_round_trip(voter, rest);
                wire::blob_round_trip(signature, fourth);
                wire::blob_round_trip(stage, third);
                wire::uint_round_trip(1, 4, second);
                let upto_first = wire::le_bytes(1, 4);
                let upto_second = upto_first + wire::blob(stage);
                let upto_third = upto_second + wire::blob(signature);
                wire::join_associates(upto_third, voter, rest);
                wire::join_associates(upto_second, wire::blob(signature), fourth);
                wire::join_associates(upto_first, wire::blob(stage), third);
            },
        }
    }

    proof fn extension(bytes: Seq<u8>, more: Seq<u8>) {
        let (variant, second) = wire::take_uint(bytes, 4).unwrap();
        wire::uint_extension(bytes, 4, more);
        if variant == 0 {
            Proposal::extension(second, more);
        } else {
            let third = wire::take_blob(second).unwrap().1;
            let fourth = wire::take_blob(third).unwrap().1;
            wire::blob_extension(second, more);
            wire::blob_extension(third, more);
            wire::raw_extension(fourth, 32, more);
        }
    }

    proof fn rewritten(bytes: Seq<u8>) {
        wire::uint_rewritten(bytes, 4);
        let (variant, second) = wire::take_uint(bytes, 4).unwrap();
        if variant == 0 {
            Proposal::rewritten(second);
            let (proposal, rest) = Proposal::parse(second).unwrap();
            wire::join_associates(wire::le_bytes(0, 4), proposal.encoding(), rest);
        } else {
            let (stage, third) = wire::take_blob(second).unwrap();
            let (signature, fourth) = wire::take_blob(third).unwrap();
            let (voter, rest) = wire::take_raw(fourth, 32).unwrap();
            wire::blob_rewritten(second);
            wire::blob_rewritten(third);
            wire::raw_rewritten(fourth, 32);
            let upto_first = wire::le_bytes(1, 4);
            let upto_second = upto_first + wire::blob(stage);
            let upto_third = upto_second + wire::blob(signature);
            wire::join_associates(upto_first, wire::blob(stage), third);
            wire::join_associates(upto_second, wire::blob(signature), fourth);
            wire::join_associates(upto_third, voter, rest);
        }
    }
}

impl Encode for ActorRequest {
    type Model = Message;

    open spec fn model(&self) -> Message {
        self@
    }

    proof fn model_fits(&self) {
        match self {
            ActorRequest::ConsensusRequest { transaction } => {
                transaction.model_fits();
            },
            ActorRequest::PeerVote { vote_type, signed_msg, pubkey } => {
                wire::vec_fits(vote_type);
                wire::vec_fits(signed_msg);
                assert(pubkey@.len() == 32);
            },
        }
    }

    fn write(&self, pool: &mut BytesMut) {
        match self {
            ActorRequest::ConsensusRequest { transaction } => {
                proof {
                    wire::le_bytes_len(0, 4);
                }
                put_u32(pool, 0);
                transaction.write(pool);
            },
            ActorRequest::PeerVote { vote_type, signed_msg, pubkey } => {
                proof {
                    wire::le_bytes_len(1, 4);
                    wire::blob_len(vote_type@);
                    wire::blob_len(signed_msg@);
                }
                put_u32(pool, 1);
                put_blob(pool, vote_type.as_slice());
                put_blob(pool, signed_msg.as_slice());
                put_array(pool, pubkey);
            },
        }
        assert(wire::buffer_bytes(*pool) =~= wire::buffer_bytes(*old(pool)) + self.model().encoding());
    }
}

impl<'a> Decode<'a> for ActorRequest {
    fn read(buffer: &'a [u8]) -> (read: Option<(Self, &'a [u8])>) {
        let (variant, rest) = match read_u32(buffer) {
            Some(read) => read,
            None => return None,
        };
        if variant == 0 {
            let (transaction, rest) = match Transaction::read(rest) {
                Some(read) => read,
                None => return None,
            };
            Some((ActorRequest::ConsensusRequest { transaction }, rest))
        } else if variant == 1 {
            let (stage, rest) = match read_blob(rest) {
                Some(read) => read,
                None => return None,
            };
            let (signature, rest) = match read_blob(rest) {
                Some(read) => read,
                None => return None,
            };
            let (pubkey, rest) = match read_array::<32>(rest) {
                Some(read) => read,
                None => return None,
            };
            let vote = ActorRequest::PeerVote {
                vote_type: slice_to_vec(stage),
                signed_msg: slice_to_vec(signature),
                pubkey,
            };
            Some((vote, rest))
        } else {
            None
        }
    }
}

// ---------------------------------------------------------------------------
// Socket addresses
// ---------------------------------------------------------------------------

/// The address and port of a peer's socket.
#[derive(Clone, Copy, Debug)]
#[allow(inconsistent_fields)]
pub enum PeerAddr {
    V4 { ip: [u8; 4], port: u16 },
    V6 { ip: [u8; 16], port: u16 },
}

/// What a socket address says.
pub enum Endpoint {
    V4 { ip: Seq<u8>, port: u16 },
    V6 { ip: Seq<u8>, port: u16 },
}

impl View for PeerAddr {
    type V = Endpoint;

    open spec fn view(&self) -> Endpoint {
        match *self {
            PeerAddr::V4 { ip, port } => Endpoint::V4 { ip: ip@, port },
            PeerAddr::V6 { ip, port } => Endpoint::V6 { ip: ip@, port },
        }
    }
}

impl Wire for Endpoint {
    open spec fn fits(self) -> bool {
        match self {
            Endpoint::V4 { ip, port } => ip.len() == 4,
            Endpoint::V6 { ip, port } => ip.len() == 16,
        }
    }

    open spec fn encoding(self) -> Seq<u8> {
        match self {
            Endpoint::V4 { ip, port } => wire::le_bytes(0, 4) + ip + wire::le_bytes(port as nat, 2),
            Endpoint::V6 { ip, port } => wire::le_bytes(1, 4) + ip + wire::le_bytes(port as nat, 2),
        }
    }

    open spec fn parse(bytes: Seq<u8>) -> Option<(Self, Seq<u8>)> {
        match wire::take_uint(bytes, 4) {
            None => None,
            Some((variant, bytes)) => if variant > 1 {
                None
            } else {
                match wire::take_raw(bytes, if variant == 0 { 4 } else { 16 }) {
                    None => None,
                    Some((ip, bytes)) => match wire::take_uint(bytes, 2) {
                        None => None,
                        Some((port, rest)) => if variant == 0 {
                            Some((Endpoint::V4 { ip, port: port as u16 }, rest))
                        } else {
                            Some((Endpoint::V6 { ip, port: port as u16 }, rest))
                        },
                    },
                }
            },
        }
    }

    proof fn round_trip(self, rest: Seq<u8>) {
        wire::byte_ranges();
        let (variant, ip, port) = match self {
            Endpoint::V4 { ip, port } => (0nat, ip, port),
            Endpoint::V6 { ip, port } => (1nat, ip, port),
        };
        let third = wire::le_bytes(port as nat, 2) + rest;
        let second = ip + third;
        wire::uint_round_trip(port as nat, 2, rest);
        wire::raw_round_trip(ip, third);
        wire::uint_round_trip(variant, 4, second);
        assert(self.encoding() + rest =~= wire::le_bytes(variant, 4) + second);
    }

    proof fn extension(bytes: Seq<u8>, more: Seq<u8>) {
        let (variant, second) = wire::take_uint(bytes, 4).unwrap();
        let count: nat = if variant == 0 {
            4
        } else {
            16
        };
        let third = wire::take_raw(second, count).unwrap().1;
        wire::uint_extension(bytes, 4, more);
        wire::raw_extension(second, count, more);
        wire::uint_extension(third, 2, more);
    }

    proof fn rewritten(bytes: Seq<u8>) {
        wire::byte_ranges();
        let (variant, second) = wire::take_uint(bytes, 4).unwrap();
        let count: nat = if variant == 0 {
            4
        } else {
            16
        };
        let (ip, third) = wire::take_raw(second, count).unwrap();
        let (port, rest) = wire::take_uint(third, 2).unwrap();
        wire::uint_rewritten(bytes, 4);
        wire::raw_rewritten(second, count);
        wire::uint_rewritten(third, 2);
        wire::join_associates(wire::le_bytes(variant, 4), ip, third);
        wire::join_associates(wire::le_bytes(variant, 4) + ip, wire::le_bytes(port, 2), rest);
    }
}

impl PeerAddr {
    /// How many bytes the address takes.
    pub fn size(&self) -> (size: u128)
        ensures
            size == self@.encoding().len(),
            size <= 22,
    {
        match self {
            PeerAddr::V4 { port, .. } => {
                proof {
                    wire::le_bytes_len(0, 4);
                    wire::le_bytes_len(*port as nat, 2);
                }
                10
            },
            PeerAddr::V6 { port, .. } => {
                proof {
                    wire::le_bytes_len(1, 4);
                    wire::le_bytes_len(*port as nat, 2);
                }
                22
            },
        }
    }
}

impl Encode for PeerAddr {
    type Model = Endpoint;

    open spec fn model(&self) -> Endpoint {
        self@
    }

    proof fn model_fits(&self) {
    }

    fn write(&self, pool: &mut BytesMut) {
        match self {
            PeerAddr::V4 { ip, port } => {
                proof {
                    wire::le_bytes_len(0, 4);
                    wire::le_bytes_len(*port as nat, 2);
                }
                put_u32(pool, 0);
                put_array(pool, ip);
                put_u16(pool, *port);
            },
            PeerAddr::V6 { ip, port } => {
                proof {
                    wire::le_bytes_len(1, 4);
                    wire::le_bytes_len(*port as nat, 2);
                }
                put_u32(pool, 1);
                put_array(pool, ip);
                put_u16(pool, *port);
            },
        }
        assert(wire::buffer_bytes(*pool) =~= wire::buffer_bytes(*old(pool)) + self.model().encoding());
    }
}

impl<'a> Decode<'a> for PeerAddr {
    fn read(buffer: &'a [u8]) -> (read: Option<(Self, &'a [u8])>) {
        let (variant, rest) = match read_u32(buffer) {
            Some(read) => read,
            None => return None,
        };
        if variant == 0 {
            let (ip, rest) = match read_array::<4>(rest) {
                Some(read) => read,
                None => return None,
            };
            let (port, rest) = match read_u16(rest) {
                Some(read) => read,
                None => return None,
            };
            Some((PeerAddr::V4 { ip, port }, rest))
        } else if variant == 1 {
            let (ip, rest) = match read_array::<16>(rest) {
                Some(read) => read,
                None => return None,
            };
            let (port, rest) = match read_u16(rest) {
                Some(read) => read,
                None => return None,
            };
            Some((PeerAddr::V6 { ip, port }, rest))
        } else {
            None
        }
    }
}

} // verus!
