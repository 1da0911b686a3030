//! The bootnode: it knows the leader and all connected peers, and tells every
//! peer that joins.

use bytes::BytesMut;
use vstd::prelude::*;
use vstd::slice::slice_to_vec;

use crate::leader::{LEADER, PEER_PUBKEY};
use crate::packet;
use crate::packet::{
    deserialize_packet, serialize_into, ConnectionPacket, Encode, Endpoint, Introduction, PeerAddr, Wire,
};
use crate::wire;
use crate::wire::{put_blob, same_bytes};

verus! {

/// Where the bootnode listens.
pub const BOOTNODE_ADDRESS: &'static str = "127.0.0.1:1100";

/// The node type under which peers are listed.
pub const CLIENT: &'static str = "client";

/// How long a node that connects may take to introduce itself to the bootnode,
/// in milliseconds.
pub const INTRODUCTION_TIMEOUT: u64 = 100;

/// A node of the list, as it is stored. It is written in the format of a
/// connection packet.
#[derive(Debug)]
pub struct StoragePacket {
    pub node_type: &'static [u8],
    pub address: Vec<u8>,
    pub payload: Vec<u8>,
}

impl Encode for StoragePacket {
    type Model = Introduction;

    open spec fn model(&self) -> Introduction {
        Introduction {
            node_type: self.node_type@,
            address: self.address@,
            payload: self.payload@,
        }
    }

    proof fn model_fits(&self) {
        wire::slice_fits(self.node_type);
        wire::vec_fits(&self.address);
        wire::vec_fits(&self.payload);
        let said: Introduction = self.model();
        assert(said.fits());
    }

    fn write(&self, pool: &mut BytesMut) {
        proof {
            wire::blob_len(self.node_type@);
            wire::blob_len(self.address@);
            wire::blob_len(self.payload@);
        }
        put_blob(pool, self.node_type);
        put_blob(pool, self.address.as_slice());
        put_blob(pool, self.payload.as_slice());
        assert(wire::buffer_bytes(*pool) =~= wire::buffer_bytes(*old(pool)) + self.model().encoding());
    }
}

impl StoragePacket {
    /// How many bytes the entry takes.
    fn size(&self) -> (size: u128)
        ensures
            size == self.model().encoding().len(),
            size <= 24 + 3 * usize::MAX,
    {
        proof {
            wire::blob_len(self.node_type@);
            wire::blob_len(self.address@);
            wire::blob_len(self.payload@);
        }
        24 + self.node_type.len() as u128 + self.address.len() as u128 + self.payload.len() as u128
    }
}

/// A number in decimal digits.
pub open spec fn decimal(number: nat) -> Seq<u8>
    decreases number,
{
    if number < 10 {
        seq![(48 + number) as u8]
    } else {
        decimal(number / 10).push((48 + number % 10) as u8)
    }
}

/// A number below sixteen as a hexadecimal digit.
pub open spec fn hex_digit(number: nat) -> u8 {
    if number < 10 {
        (48 + number) as u8
    } else {
        (87 + number) as u8
    }
}

/// A byte in two hexadecimal digits.
pub open spec fn hex_byte(byte: u8) -> Seq<u8> {
    seq![hex_digit((byte / 16) as nat), hex_digit((byte % 16) as nat)]
}

/// The first `count` bytes of an IPv4 address in decimal, with dots between
/// them.
pub open spec fn dotted(ip: Seq<u8>, count: nat) -> Seq<u8>
    decreases count,
{
    if count == 0 {
        Seq::empty()
    } else if count == 1 {
        decimal(ip[0] as nat)
    } else {
        dotted(ip, (count - 1) as nat) + wire::text(".") + decimal(ip[count - 1] as nat)
    }
}

/// The first `count` groups of an IPv6 address, each two bytes in four
/// hexadecimal digits, with colons between them.
pub open spec fn grouped(ip: Seq<u8>, count: nat) -> Seq<u8>
    decreases count,
{
    if count == 0 {
        Seq::empty()
    } else {
        let group = hex_byte(ip[2 * count - 2]) + hex_byte(ip[2 * count - 1]);
        if count == 1 {
            group
        } else {
            grouped(ip, (count - 1) as nat) + wire::text(":") + group
        }
    }
}

/// The text of an address and port by which a peer can be connected to, such as
/// `127.0.0.1:6376`. An IPv6 address stands in brackets, with all its eight
/// groups written out.
pub open spec fn address_text(addr: Endpoint) -> Seq<u8> {
    match addr {
        Endpoint::V4 { ip, port } => dotted(ip, 4) + wire::text(":") + decimal(port as nat),
        Endpoint::V6 { ip, port } => wire::text("[") + grouped(ip, 8) + wire::text("]") + wire::text(":") + decimal(
            port as nat,
        ),
    }
}

/// Whether bytes are ASCII, and so a text.
pub open spec fn ascii(bytes: Seq<u8>) -> bool {
    forall|i: int| 0 <= i < bytes.len() ==> (#[trigger] bytes[i]) < 128
}

/// Decimal digits are ASCII.
proof fn decimal_is_ascii(number: nat)
    ensures
        ascii(decimal(number)),
    decreases number,
{
    if number >= 10 {
        decimal_is_ascii(number / 10);
    }
}

/// What stands between the numbers of an address is ASCII.
proof fn marks_are_ascii()
    ensures
        ascii(wire::text(".")),
        ascii(wire::text(":")),
        ascii(wire::text("[")),
        ascii(wire::text("]")),
{
    reveal_strlit(".");
    reveal_strlit(":");
    reveal_strlit("[");
    reveal_strlit("]");
    wire::ascii_text(".");
    wire::ascii_text(":");
    wire::ascii_text("[");
    wire::ascii_text("]");
}

/// An IPv4 address in decimal is ASCII.
proof fn dotted_is_ascii(ip: Seq<u8>, count: nat)
    ensures
        ascii(dotted(ip, count)),
    decreases count,
{
    if count > 0 {
        marks_are_ascii();
        decimal_is_ascii(ip[count - 1] as nat);
        dotted_is_ascii(ip, (count - 1) as nat);
    }
}

/// An IPv6 address in hexadecimal is ASCII.
proof fn grouped_is_ascii(ip: Seq<u8>, count: nat)
    ensures
        ascii(grouped(ip, count)),
    decreases count,
{
    if count > 0 {
        marks_are_ascii();
        grouped_is_ascii(ip, (count - 1) as nat);
    }
}

/// A peer that reads the list finds a text in the address of every listed peer.
pub proof fn listed_addresses_are_text(addr: Endpoint)
    ensures
        ascii(listed_peer(addr).address),
{
    marks_are_ascii();
    match addr {
        Endpoint::V4 { ip, port } => {
            dotted_is_ascii(ip, 4);
            decimal_is_ascii(port as nat);
        },
        Endpoint::V6 { ip, port } => {
            grouped_is_ascii(ip, 8);
            decimal_is_ascii(port as nat);
        },
    }
}

/// How a peer is listed: by the text of its address; its key is not known.
pub open spec fn listed_peer(addr: Endpoint) -> Introduction {
    Introduction { node_type: wire::text(CLIENT), address: address_text(addr), payload: Seq::empty() }
}

/// How peers are listed, in the order of the leader's list.
pub open spec fn listed_peers(addrs: Seq<Endpoint>) -> Seq<Introduction> {
    addrs.map_values(|addr: Endpoint| listed_peer(addr))
}

/// Appends the bytes of a text.
fn write_text(bytes: &mut Vec<u8>, text: &str)
    ensures
        final(bytes)@ == old(bytes)@ + wire::text(text),
{
    bytes.extend_from_slice(text.as_bytes());
    assert(bytes@ =~= old(bytes)@ + wire::text(text));
}

/// Appends a number in decimal digits.
fn write_decimal(bytes: &mut Vec<u8>, number: u16)
    ensures
        final(bytes)@ == old(bytes)@ + decimal(number as nat),
    decreases number,
{
    if number >= 10 {
        write_decimal(bytes, number / 10);
    }
    bytes.push(48 + (number % 10) as u8);
    assert(bytes@ =~= old(bytes)@ + decimal(number as nat));
}

/// A number below sixteen as a hexadecimal digit.
fn to_hex_digit(number: u8) -> (digit: u8)
    requires
        number < 16,
    ensures
        digit == hex_digit(number as nat),
{
    if number < 10 {
        48 + number
    } else {
        87 + number
    }
}

/// Appends a byte in two hexadecimal digits.
fn write_hex_byte(bytes: &mut Vec<u8>, byte: u8)
    ensures
        final(bytes)@ == old(bytes)@ + hex_byte(byte),
{
    bytes.push(to_hex_digit(byte / 16));
    bytes.push(to_hex_digit(byte % 16));
    assert(bytes@ =~= old(bytes)@ + hex_byte(byte));
}

/// Appends an IPv4 address in decimal, with dots.
fn write_dotted(bytes: &mut Vec<u8>, ip: &[u8; 4])
    ensures
        final(bytes)@ == old(bytes)@ + dotted(ip@, 4),
{
    let mut i: usize = 0;
    assert(bytes@ =~= old(bytes)@ + dotted(ip@, 0));
    while i < 4
        invariant
            i <= 4,
            ip@.len() == 4,
            bytes@ == old(bytes)@ + dotted(ip@, i as nat),
        decreases 4 - i,
    {
        if i > 0 {
            write_text(bytes, ".");
        }
        write_decimal(bytes, ip[i] as u16);
        assert(bytes@ =~= old(bytes)@ + dotted(ip@, (i + 1) as nat));
        i += 1;
    }
}

/// Appends the eight groups of an IPv6 address in hexadecimal, with colons.
fn write_grouped(bytes: &mut Vec<u8>, ip: &[u8; 16])
    ensures
        final(bytes)@ == old(bytes)@ + grouped(ip@, 8),
{
    let mut i: usize = 0;
    assert(bytes@ =~= old(bytes)@ + grouped(ip@, 0));
    while i < 8
        invariant
            i <= 8,
            ip@.len() == 16,
            bytes@ == old(bytes)@ + grouped(ip@, i as nat),
        decreases 8 - i,
    {
        if i > 0 {
            write_text(bytes, ":");
        }
        write_hex_byte(bytes, ip[2 * i]);
        write_hex_byte(bytes, ip[2 * i + 1]);
        assert(bytes@ =~= old(bytes)@ + grouped(ip@, (i + 1) as nat));
        i += 1;
    }
}

/// Lists one peer.
fn list_peer(addr: &PeerAddr) -> (packet: StoragePacket)
    ensures
        packet.model() == listed_peer(addr@),
{
    let mut address: Vec<u8> = Vec::new();
    match addr {
        PeerAddr::V4 { ip, port } => {
            write_dotted(&mut address, ip);
            write_text(&mut address, ":");
            write_decimal(&mut address, *port);
        },
        PeerAddr::V6 { ip, port } => {
            write_text(&mut address, "[");
            write_grouped(&mut address, ip);
            write_text(&mut address, "]");
            write_text(&mut address, ":");
            write_decimal(&mut address, *port);
        },
    }
    let packet = StoragePacket { node_type: CLIENT.as_bytes(), address, payload: Vec::new() };
    assert(packet.payload@ =~= Seq::<u8>::empty());
    assert(packet.address@ =~= address_text(addr@));
    packet
}

/// What the bootnode knows.
pub struct Bootnode {
    /// The leader, once it has connected, and then the connected peers.
    list: Vec<StoragePacket>,
    /// Whether the leader has connected.
    leader_connected: bool,
    /// Whether the list has changed since the payload was built.
    updated: bool,
    /// The bytes of the list, as they were last built.
    payload: Vec<u8>,
    /// The buffer in which the bytes are built.
    pool: BytesMut,
}

/// What the bootnode knows, as a value.
pub struct Directory {
    pub leader: Option<Introduction>,
    pub peers: Seq<Introduction>,
}

impl Directory {
    /// The leader, if it has connected, and then the connected peers.
    pub open spec fn list(self) -> Seq<Introduction> {
        match self.leader {
            Some(leader) => seq![leader] + self.peers,
            None => self.peers,
        }
    }

    /// What is known after a node has introduced itself.
    pub open spec fn join(self, said: Introduction) -> Directory {
        if said.node_type == wire::text(LEADER) && self.leader is None {
            Directory { leader: Some(said), ..self }
        } else {
            self
        }
    }

    /// What is known after the leader has sent the addresses of all peers.
    pub open spec fn update(self, addrs: Seq<Endpoint>) -> Directory {
        Directory { peers: listed_peers(addrs), ..self }
    }
}

impl View for Bootnode {
    type V = Directory;

    closed spec fn view(&self) -> Directory {
        if self.leader_connected {
            Directory {
                leader: Some(self.list@[0].model()),
                peers: packet::models(self.list@).drop_first(),
            }
        } else {
            Directory { leader: None, peers: packet::models(self.list@) }
        }
    }
}

/// What becomes of a connection to the bootnode.
#[derive(Debug)]
pub enum JoinAction {
    /// Nothing was read in time: drop the connection.
    Silent,
    /// What was read is no connection packet: drop the connection.
    BadPacket,
    /// The node is of no known type: drop the connection.
    UnknownNode,
    /// Listen to the leader for updates.
    LeaderJoined,
    /// There is a leader already: drop the connection.
    LeaderAlreadyConnected,
    /// Send the list to the peer.
    SendList { packet: Vec<u8> },
}

/// What becomes of a connection to the bootnode, as a value.
pub enum Reply {
    Silent,
    BadPacket,
    UnknownNode,
    LeaderJoined,
    LeaderAlreadyConnected,
    SendList { packet: Seq<u8> },
}

impl View for JoinAction {
    type V = Reply;

    open spec fn view(&self) -> Reply {
        match self {
            JoinAction::Silent => Reply::Silent,
            JoinAction::BadPacket => Reply::BadPacket,
            JoinAction::UnknownNode => Reply::UnknownNode,
            JoinAction::LeaderJoined => Reply::LeaderJoined,
            JoinAction::LeaderAlreadyConnected => Reply::LeaderAlreadyConnected,
            JoinAction::SendList { packet } => Reply::SendList { packet: packet@ },
        }
    }
}

/// What becomes of a connection on which a frame was read first: one leader is
/// accepted, and every peer is sent the whole list.
pub open spec fn reply(directory: Directory, frame: Seq<u8>) -> Reply {
    match Introduction::parse(frame) {
        None => Reply::BadPacket,
        Some((said, _)) => if said.node_type == wire::text(LEADER) {
            if directory.leader is None {
                Reply::LeaderJoined
            } else {
                Reply::LeaderAlreadyConnected
            }
        } else if said.node_type == wire::text(PEER_PUBKEY) {
            Reply::SendList { packet: directory.list().encoding() }
        } else {
            Reply::UnknownNode
        },
    }
}

impl Bootnode {
    /// The list begins with the leader, and a payload that was not outdated
    /// holds the list.
    pub closed spec fn well_formed(&self) -> bool {
        &&& self.leader_connected ==> self.list@.len() >= 1
        &&& !self.updated ==> self.payload@ == packet::models(self.list@).encoding()
        &&& wire::buffer_bytes(self.pool) == Seq::<u8>::empty()
    }

    /// Nobody has connected yet.
    pub fn new() -> (bootnode: Bootnode)
        ensures
            bootnode.well_formed(),
            bootnode@ == (Directory { leader: None, peers: Seq::empty() }),
    {
        let bootnode = Bootnode {
            list: Vec::new(),
            leader_connected: false,
            updated: true,
            payload: Vec::new(),
            pool: wire::new_pool(1024),
        };
        assert(packet::models(bootnode.list@) =~= Seq::empty());
        bootnode
    }

    /// Tells whether the bytes of the list fit a buffer.
    pub fn can_list(&self) -> (can: bool)
        requires
            self.well_formed(),
        ensures
            can == (self@.list().encoding().len() <= isize::MAX),
    {
        let ghost all = packet::models(self.list@);
        let mut size: u128 = 8;
        let mut i: usize = 0;
        proof {
            self.list_is_directory();
            wire::le_bytes_len(all.len(), 8);
            assert(all.take(0) =~= Seq::empty());
        }
        while i < self.list.len()
            invariant
                i <= self.list@.len(),
                all == packet::models(self.list@),
                all == self@.list(),
                all.encoding().len() == 8 + packet::items_encoding(all).len(),
                size == 8 + packet::items_encoding(all.take(i as int)).len(),
                size <= isize::MAX,
            decreases self.list.len() - i,
        {
            proof {
                packet::items_encoding_push(all.take(i as int), all[i as int]);
                packet::items_encoding_prefix(all, (i + 1) as nat);
                assert(all.take(i + 1) =~= all.take(i as int).push(all[i as int]));
            }
            size = size + self.list[i].size();
            if size > isize::MAX as u128 {
                return false;
            }
            i += 1;
        }
        assert(all.take(i as int) =~= all);
        true
    }

    /// The list that the directory stands for.
    proof fn list_is_directory(&self)
        requires
            self.well_formed(),
        ensures
            packet::models(self.list@) == self@.list(),
    {
        assert(packet::models(self.list@) =~= self@.list());
    }

    /// The bytes of the list, built anew if the list has changed.
    fn list_packet(&mut self) -> (packet: Vec<u8>)
        requires
            old(self).well_formed(),
            old(self)@.list().encoding().len() <= isize::MAX,
        ensures
            final(self).well_formed(),
            final(self)@ == old(self)@,
            packet@ == old(self)@.list().encoding(),
    {
        proof {
            self.list_is_directory();
        }
        if self.updated {
            let built = serialize_into(&mut self.pool, &self.list);
            self.payload = wire::copied(&built);
            self.updated = false;
            assert(self.payload@ =~= packet::models(self.list@).encoding());
        }
        slice_to_vec(self.payload.as_slice())
    }
}

/// Decides what becomes of a connection, from the first frame that was read on
/// it, if one was read in time.
pub fn start_bootnode(bootnode: &mut Bootnode, first_frame: Option<&[u8]>) -> (action: JoinAction)
    requires
        old(bootnode).well_formed(),
        first_frame matches Some(frame) && reply(old(bootnode)@, frame@) is SendList ==> old(
            bootnode,
        )@.list().encoding().len() <= isize::MAX,
    ensures
        final(bootnode).well_formed(),
        match first_frame {
            Some(frame) => {
                &&& action@ == reply(old(bootnode)@, frame@)
                &&& final(bootnode)@ == (match Introduction::parse(frame@) {
                    Some((said, _)) => old(bootnode)@.join(said),
                    None => old(bootnode)@,
                })
            },
            None => action@ == Reply::Silent && final(bootnode)@ == old(bootnode)@,
        },
{
    let frame = match first_frame {
        Some(frame) => frame,
        None => return JoinAction::Silent,
    };
    let connected = match deserialize_packet::<ConnectionPacket>(frame) {
        Ok(connected) => connected,
        Err(_) => return JoinAction::BadPacket,
    };
    if same_bytes(connected.node_type, LEADER.as_bytes()) {
        if bootnode.leader_connected {
            return JoinAction::LeaderAlreadyConnected;
        }
        let stored = StoragePacket {
            node_type: LEADER.as_bytes(),
            address: slice_to_vec(connected.address),
            payload: slice_to_vec(connected.payload),
        };
        bootnode.list.insert(0, stored);
        bootnode.leader_connected = true;
        bootnode.updated = true;
        proof {
            assert(bootnode.list@[0].model() == connected.model());
            assert(packet::models(bootnode.list@).drop_first() =~= packet::models(old(bootnode).list@));
        }
        JoinAction::LeaderJoined
    } else if same_bytes(connected.node_type, PEER_PUBKEY.as_bytes()) {
        JoinAction::SendList { packet: bootnode.list_packet() }
    } else {
        JoinAction::UnknownNode
    }
}

/// Takes a list of addresses that the leader has sent: it replaces the peers
/// that were known. Bytes that are no such list change nothing.
pub fn update_addresses(bootnode: &mut Bootnode, frame: &[u8]) -> (updated: bool)
    requires
        old(bootnode).well_formed(),
    ensures
        final(bootnode).well_formed(),
        match Seq::<Endpoint>::parse(frame@) {
            Some((addrs, _)) => updated && final(bootnode)@ == old(bootnode)@.update(addrs),
            None => !updated && final(bootnode)@ == old(bootnode)@,
        },
{
    let addresses = match deserialize_packet::<Vec<PeerAddr>>(frame) {
        Ok(addresses) => addresses,
        Err(_) => return false,
    };
    let kept: usize = if bootnode.leader_connected {
        1
    } else {
        0
    };
    bootnode.list.truncate(kept);
    let ghost head = bootnode.list@;
    bootnode.updated = true;
    let mut i: usize = 0;
    while i < addresses.len()
        invariant
            i <= addresses@.len(),
            bootnode.list@.len() == kept + i,
            bootnode.list@.take(kept as int) == head,
            head.len() == kept,
            bootnode.leader_connected == old(bootnode).leader_connected,
            bootnode.updated,
            bootnode.pool == old(bootnode).pool,
            forall|k: int| 0 <= k < i ==> (#[trigger] bootnode.list@[kept + k]).model() == listed_peer(addresses@[k]@),
        decreases addresses.len() - i,
    {
        bootnode.list.push(list_peer(&addresses[i]));
        assert(bootnode.list@.take(kept as int) =~= head);
        i += 1;
    }
    proof {
        let peers = listed_peers(packet::models(addresses@));
        if kept == 1 {
            assert(bootnode.list@.take(1)[0] == head[0]);
            assert forall|k: int| 0 <= k < peers.len() implies packet::models(bootnode.list@).drop_first()[k] == peers[k] by {
                assert(bootnode.list@[kept + k].model() == listed_peer(addresses@[k]@));
            }
            assert(packet::models(bootnode.list@).drop_first() =~= peers);
        } else {
            assert forall|k: int| 0 <= k < peers.len() implies packet::models(bootnode.list@)[k] == peers[k] by {
                assert(bootnode.list@[kept + k].model() == listed_peer(addresses@[k]@));
            }
            assert(packet::models(bootnode.list@) =~= peers);
        }
    }
    true
}

/// A peer that joins reads the list of the leader and all connected peers from
/// what it is sent.
pub proof fn joining_peer_reads_the_list(directory: Directory, frame: Seq<u8>)
    requires
        directory.list().fits(),
        reply(directory, frame) is SendList,
    ensures
        Seq::<Introduction>::parse(reply(directory, frame)->packet) == Some((directory.list(), Seq::<u8>::empty())),
{
    let bytes = directory.list().encoding();
    directory.list().round_trip(Seq::empty());
    assert(bytes + Seq::<u8>::empty() =~= bytes);
}

/// After an update by the leader, a peer that joins finds the leader and just
/// the peers of that update in the list, in their order.
pub proof fn update_is_told_to_joining_peers(directory: Directory, leader: Introduction, addrs: Seq<Endpoint>)
    requires
        directory.leader == Some(leader),
    ensures
        directory.update(addrs).list() == seq![leader] + listed_peers(addrs),
{
}

// ---------------------------------------------------------------------------
// What a joining peer is told
// ---------------------------------------------------------------------------

/// The number that decimal digits spell.
pub open spec fn decimal_value(digits: Seq<u8>) -> nat
    decreases digits.len(),
{
    if digits.len() == 0 {
        0
    } else {
        (10 * decimal_value(digits.drop_last()) + (digits.last() - 48)) as nat
    }
}

/// A number in decimal is made of digits that spell it, without leading zeros.
pub proof fn decimal_spells_the_number(number: nat)
    ensures
        decimal_value(decimal(number)) == number,
        decimal(number).len() >= 1,
        forall|i: int| 0 <= i < decimal(number).len() ==> 48 <= #[trigger] decimal(number)[i] <= 57,
        decimal(number).len() > 1 ==> decimal(number)[0] != 48,
        number >= 10 ==> decimal(number).len() > 1,
    decreases number,
{
    if number < 10 {
        assert(decimal(number).drop_last() =~= Seq::empty());
        assert(decimal_value(decimal(number).drop_last()) == 0);
    } else {
        let front = decimal(number / 10);
        decimal_spells_the_number(number / 10);
        assert(decimal(number).drop_last() =~= front);
        assert(decimal(number)[0] == front[0]);
        if number / 10 < 10 {
            assert(front[0] == 48 + number / 10);
        }
    }
}

/// The number that a hexadecimal digit stands for.
pub open spec fn hex_value(digit: u8) -> int {
    if digit <= 57 {
        digit - 48
    } else {
        digit - 97 + 10
    }
}

/// A byte in hexadecimal is two digits that spell it.
pub proof fn hex_spells_the_byte(byte: u8)
    ensures
        hex_byte(byte).len() == 2,
        forall|i: int|
            0 <= i < 2 ==> 48 <= #[trigger] hex_byte(byte)[i] <= 57 || 97 <= hex_byte(byte)[i] <= 102,
        16 * hex_value(hex_byte(byte)[0]) + hex_value(hex_byte(byte)[1]) == byte,
{
}

/// The text of an IPv4 address and port: the four bytes of the address in
/// decimal with dots between them, a colon, and the port in decimal.
pub proof fn v4_address_text(ip: Seq<u8>, port: u16)
    ensures
        address_text(Endpoint::V4 { ip, port }) == decimal(ip[0] as nat) + wire::text(".") + decimal(ip[1] as nat)
            + wire::text(".") + decimal(ip[2] as nat) + wire::text(".") + decimal(ip[3] as nat) + wire::text(":")
            + decimal(port as nat),
{
    reveal_with_fuel(dotted, 5);
}

/// The text of an IPv6 address and port: in brackets the sixteen bytes of the
/// address in hexadecimal with a colon between each two pairs, then a colon and
/// the port in decimal.
pub proof fn v6_address_text(ip: Seq<u8>, port: u16)
    ensures
        address_text(Endpoint::V6 { ip, port }) == wire::text("[") + grouped(ip, 8) + wire::text("]") + wire::text(":")
            + decimal(port as nat),
        grouped(ip, 1) == hex_byte(ip[0]) + hex_byte(ip[1]),
        forall|count: nat|
            1 <= count < 8 ==> #[trigger] grouped(ip, count + 1) == grouped(ip, count) + wire::text(":") + (hex_byte(
                ip[2 * count as int],
            ) + hex_byte(ip[2 * count as int + 1])),
{
    reveal_with_fuel(grouped, 2);
    assert forall|count: nat| 1 <= count < 8 implies #[trigger] grouped(ip, count + 1) == grouped(ip, count)
        + wire::text(":") + (hex_byte(ip[2 * count as int]) + hex_byte(ip[2 * count as int + 1])) by {
        assert(2 * (count + 1) - 2 == 2 * count);
    }
}

/// After an update there is exactly one entry for each address, in their order:
/// a client without a key, under the text of that address.
pub proof fn each_address_is_listed(addrs: Seq<Endpoint>)
    ensures
        listed_peers(addrs).len() == addrs.len(),
        forall|i: int|
            0 <= i < addrs.len() ==> {
                let entry = #[trigger] listed_peers(addrs)[i];
                &&& entry.node_type == wire::text("client")
                &&& entry.address == address_text(addrs[i])
                &&& entry.payload.len() == 0
            },
{
}

/// The list is the leader, if there is one, and then all peers, none left out or
/// moved.
pub proof fn everyone_is_listed(directory: Directory)
    ensures
        directory.leader is None ==> directory.list() == directory.peers,
        directory.leader matches Some(leader) ==> {
            &&& directory.list().len() == directory.peers.len() + 1
            &&& directory.list()[0] == leader
            &&& forall|i: int| 0 <= i < directory.peers.len() ==> #[trigger] directory.list()[i + 1] == directory.peers[i]
        },
{
}

/// An update by the leader replaces the peers, each address by its entry, and
/// keeps the leader; a peer that joins then reads the leader and one entry for
/// each address.
pub proof fn joining_peer_reads_each_address(directory: Directory, addrs: Seq<Endpoint>, frame: Seq<u8>)
    requires
        directory.update(addrs).list().fits(),
        reply(directory.update(addrs), frame) is SendList,
    ensures
        directory.update(addrs).leader == directory.leader,
        Seq::<Introduction>::parse(reply(directory.update(addrs), frame)->packet) matches Some((list, rest)) && {
            let ahead: int = if directory.leader is Some {
                1
            } else {
                0
            };
            &&& rest.len() == 0
            &&& list.len() == ahead + addrs.len()
            &&& directory.leader matches Some(leader) ==> list[0] == leader
            &&& forall|i: int|
                0 <= i < addrs.len() ==> {
                    let entry = #[trigger] list[ahead + i];
                    &&& entry.node_type == wire::text("client")
                    &&& entry.address == address_text(addrs[i])
                    &&& entry.payload.len() == 0
                }
        },
{
    joining_peer_reads_the_list(directory.update(addrs), frame);
}

/// The node types that the bootnode serves cannot be taken for one another.
proof fn peers_are_no_leaders()
    ensures
        wire::text("peer-pubkey") != wire::text("leader"),
{
    reveal_strlit("peer-pubkey");
    reveal_strlit("leader");
    wire::texts_differ("peer-pubkey", "leader");
}

/// What a node says decides what the bootnode does: the first that says it is the
/// leader becomes the leader, with all that it says, and any other that says so
/// is turned away; every peer is sent the list, and nobody is listed for it; any
/// other node is turned away, and so is one that sends no introduction.
pub proof fn nodes_join_as_they_say(directory: Directory, said: Introduction, rest: Seq<u8>, nonsense: Seq<u8>)
    requires
        said.fits(),
        Introduction::parse(nonsense) is None,
    ensures
        ({
            let replied = reply(directory, said.encoding() + rest);
            &&& said.node_type == wire::text("leader") && directory.leader is None ==> replied == Reply::LeaderJoined
                && directory.join(said).leader == Some(said) && directory.join(said).peers == directory.peers
            &&& said.node_type == wire::text("leader") && directory.leader is Some ==> replied
                == Reply::LeaderAlreadyConnected && directory.join(said) == directory
            &&& said.node_type == wire::text("peer-pubkey") ==> replied == (Reply::SendList {
                packet: directory.list().encoding(),
            }) && directory.join(said) == directory
            &&& said.node_type != wire::text("leader") && said.node_type != wire::text("peer-pubkey") ==> replied
                == Reply::UnknownNode && directory.join(said) == directory
            &&& reply(directory, nonsense) == Reply::BadPacket
        }),
{
    said.round_trip(rest);
    peers_are_no_leaders();
}

/// What becomes of a connection is seen as what it is.
pub proof fn join_action_says(action: JoinAction)
    ensures
        action is Silent <==> action@ == Reply::Silent,
        action is BadPacket <==> action@ == Reply::BadPacket,
        action is UnknownNode <==> action@ == Reply::UnknownNode,
        action is LeaderJoined <==> action@ == Reply::LeaderJoined,
        action is LeaderAlreadyConnected <==> action@ == Reply::LeaderAlreadyConnected,
        action matches JoinAction::SendList { packet } ==> action@ == (Reply::SendList { packet: packet@ }),
{
}

} // verus!
