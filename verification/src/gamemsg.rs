//! Game packets: the values that travel between the clients and the server
//! once the game connection is open, and the binary frame that carries them.
use flatbuffers::FlatBufferBuilder;
use vstd::prelude::*;

use crate::flatbuf::{
    fb_finish, fb_finished, fb_finished_bytes, fb_finished_data, fb_in_table, fb_new, fb_ops,
    fb_returned, fb_string_offset, fb_create_string, FbOp,
};
use crate::network::{
    create_game_start_request, create_game_start_response, create_loading_request,
    create_loading_response, create_net_packet, create_start_request, create_start_response,
    fb_ready, net_packet_fields, percent_fields, reserved_fields, start_request_fields,
    start_response_fields, table_offset, table_ops, GameStartRequestArgs, GameStartResponseArgs,
    LoadingRequestArgs, LoadingResponseArgs, Message, NetMessage, NetMessageValue, NetPacket, NetPacketArgs, NetPacketValue,
    StartRequestArgs, StartResponseArgs,
};

use crate::client::{lemma_same_logins_index, ClientState, FClient, FServer};
use crate::crc::{checksum, crc32};
use crate::packet_reader::{net_packet_of, read_net_packet};
use crate::messages::{
    all_connected, lemma_push_answered_keeps_logins, push_answered, send_check_all_clients_connected_message,
    send_push_game_packet_message, unknown_token,
};

verus! {

/// An input that a client sends to the game.
///
/// The camera and entity coordinates are floating-point values on the wire;
/// this type carries each one as the IEEE-754 bit pattern of the `f64`
/// (`f64::to_bits`), which is all the server ever does with them.
#[derive(Debug, Clone)]
pub enum InputType {
    /// Command input: the command name + its args
    CommandInput(String, Vec<u64>),
    /// Select action: the IDs of the selected objects
    SelectAction(Vec<u64>),
    /// Object move: where do the selected objects will move?
    ObjectMove(u64, u64),
    /// Camera move, as the bit patterns of the three `f64` coordinates.
    CameraMove(u64, u64, u64),
    /// Camera rotation, as the bit pattern of the `f64` angle.
    CameraRotate(u64),
    /// Entity creation: the entity type and the bit patterns of its `f64` position.
    CreateEntity(String, u64, u64),
}

/// The mathematical value of an [`InputType`].
pub enum InputValue {
    CommandInput(Seq<char>, Seq<u64>),
    SelectAction(Seq<u64>),
    ObjectMove(u64, u64),
    CameraMove(u64, u64, u64),
    CameraRotate(u64),
    CreateEntity(Seq<char>, u64, u64),
}

impl View for InputType {
    type V = InputValue;

    open spec fn view(&self) -> InputValue {
        match self {
            InputType::CommandInput(c, a) => InputValue::CommandInput(c@, a@),
            InputType::SelectAction(o) => InputValue::SelectAction(o@),
            InputType::ObjectMove(x, y) => InputValue::ObjectMove(*x, *y),
            InputType::CameraMove(x, y, z) => InputValue::CameraMove(*x, *y, *z),
            InputType::CameraRotate(a) => InputValue::CameraRotate(*a),
            InputType::CreateEntity(t, x, y) => InputValue::CreateEntity(t@, *x, *y),
        }
    }
}

fn copy_ids(v: &Vec<u64>) -> (r: Vec<u64>)
    ensures
        r@ == v@,
{
    let mut r: Vec<u64> = Vec::new();
    let mut i: usize = 0;
    while i < v.len()
        invariant
            i <= v.len(),
            r@ == v@.take(i as int),
        decreases v.len() - i,
    {
        r.push(v[i]);
        i = i + 1;
        assert(r@ =~= v@.take(i as int));
    }
    assert(r@ =~= v@);
    r
}

impl InputType {
    /// A copy of this input with the same value.
    pub fn duplicate(&self) -> (r: InputType)
        ensures
            r@ == self@,
    {
        match self {
            InputType::CommandInput(c, a) => InputType::CommandInput(c.clone(), copy_ids(a)),
            InputType::SelectAction(o) => InputType::SelectAction(copy_ids(o)),
            InputType::ObjectMove(x, y) => InputType::ObjectMove(*x, *y),
            InputType::CameraMove(x, y, z) => InputType::CameraMove(*x, *y, *z),
            InputType::CameraRotate(a) => InputType::CameraRotate(*a),
            InputType::CreateEntity(t, x, y) => InputType::CreateEntity(t.clone(), *x, *y),
        }
    }
}

/// The content of a game packet.
#[derive(Debug, Clone)]
pub enum PacketMessage {
    StartRequest(u64, String),
    StartResponse(u64, bool),
    LoadingRequest(u16),
    LoadingResponse(u16),
    GameStartRequest,
    GameStartResponse,
    /// Send a input
    ///
    /// The u64 is the client that originally sent the input
    /// The input type is the data of the input
    SendInputRequest(u64, InputType),
    /// Send a input, the response
    ///
    /// The u64 is the client that originally sent the input
    /// The bool is an ack field, that the server processed the
    /// packet and sent it to all clients.
    SendInputResponse(u64, bool),
    /// A request for disconnection.
    ///
    /// The u64 is the client ID of the disconnector.
    DisconnectRequest(u64),
    DisconnectResponse(u64),
    Invalid,
}

/// The mathematical value of a [`PacketMessage`].
pub enum MessageValue {
    StartRequest(u64, Seq<char>),
    StartResponse(u64, bool),
    LoadingRequest(u16),
    LoadingResponse(u16),
    GameStartRequest,
    GameStartResponse,
    SendInputRequest(u64, InputValue),
    SendInputResponse(u64, bool),
    DisconnectRequest(u64),
    DisconnectResponse(u64),
    Invalid,
}

impl View for PacketMessage {
    type V = MessageValue;

    open spec fn view(&self) -> MessageValue {
        match self {
            PacketMessage::StartRequest(id, t) => MessageValue::StartRequest(*id, t@),
            PacketMessage::StartResponse(c, a) => MessageValue::StartResponse(*c, *a),
            PacketMessage::LoadingRequest(p) => MessageValue::LoadingRequest(*p),
            PacketMessage::LoadingResponse(p) => MessageValue::LoadingResponse(*p),
            PacketMessage::GameStartRequest => MessageValue::GameStartRequest,
            PacketMessage::GameStartResponse => MessageValue::GameStartResponse,
            PacketMessage::SendInputRequest(c, i) => MessageValue::SendInputRequest(*c, i@),
            PacketMessage::SendInputResponse(c, a) => MessageValue::SendInputResponse(*c, *a),
            PacketMessage::DisconnectRequest(c) => MessageValue::DisconnectRequest(*c),
            PacketMessage::DisconnectResponse(c) => MessageValue::DisconnectResponse(*c),
            PacketMessage::Invalid => MessageValue::Invalid,
        }
    }
}

impl PacketMessage {
    /// A copy of this message with the same value.
    pub fn duplicate(&self) -> (r: PacketMessage)
        ensures
            r@ == self@,
    {
        match self {
            PacketMessage::StartRequest(id, t) => PacketMessage::StartRequest(*id, t.clone()),
            PacketMessage::StartResponse(c, a) => PacketMessage::StartResponse(*c, *a),
            PacketMessage::LoadingRequest(p) => PacketMessage::LoadingRequest(*p),
            PacketMessage::LoadingResponse(p) => PacketMessage::LoadingResponse(*p),
            PacketMessage::GameStartRequest => PacketMessage::GameStartRequest,
            PacketMessage::GameStartResponse => PacketMessage::GameStartResponse,
            PacketMessage::SendInputRequest(c, i) => PacketMessage::SendInputRequest(
                *c,
                i.duplicate(),
            ),
            PacketMessage::SendInputResponse(c, a) => PacketMessage::SendInputResponse(*c, *a),
            PacketMessage::DisconnectRequest(c) => PacketMessage::DisconnectRequest(*c),
            PacketMessage::DisconnectResponse(c) => PacketMessage::DisconnectResponse(*c),
            PacketMessage::Invalid => PacketMessage::Invalid,
        }
    }
}

/// The packet that we will be sent to the server message queue
#[derive(Debug, Clone)]
pub struct Packet {
    pub tick: u64,
    pub source_client: u64,
    /// dest client, or 0 to all clients
    pub dest_client: u64,
    pub timestamp: u64,
    pub message_id: u64,
    pub message: PacketMessage,
}

/// The mathematical value of a [`Packet`].
pub struct PacketValue {
    pub tick: u64,
    pub source_client: u64,
    pub dest_client: u64,
    pub timestamp: u64,
    pub message_id: u64,
    pub message: MessageValue,
}

impl View for Packet {
    type V = PacketValue;

    open spec fn view(&self) -> PacketValue {
        PacketValue {
            tick: self.tick,
            source_client: self.source_client,
            dest_client: self.dest_client,
            timestamp: self.timestamp,
            message_id: self.message_id,
            message: self.message@,
        }
    }
}

impl PacketValue {
    /// The same packet addressed to `client`.
    pub open spec fn addressed_to(self, client: u64) -> PacketValue {
        PacketValue { dest_client: client, ..self }
    }

    /// The same packet carrying `message`.
    pub open spec fn carrying(self, message: MessageValue) -> PacketValue {
        PacketValue { message, ..self }
    }

    /// The same packet sent by the server (source 0) at `timestamp`.
    pub open spec fn owned_by_server(self, timestamp: u64) -> PacketValue {
        PacketValue { source_client: 0, timestamp, ..self }
    }
}

impl Packet {
    pub fn new(
        tick: u64,
        source_client: u64,
        dest_client: u64,
        timestamp: u64,
        message_id: u64,
        message: PacketMessage,
    ) -> (r: Packet)
        ensures
            r.tick == tick,
            r.source_client == source_client,
            r.dest_client == dest_client,
            r.timestamp == timestamp,
            r.message_id == message_id,
            r.message == message,
    {
        Packet { tick, source_client, dest_client, timestamp, message_id, message }
    }

    /// A copy of this packet with the same value.
    pub fn duplicate(&self) -> (r: Packet)
        ensures
            r@ == self@,
    {
        Packet {
            tick: self.tick,
            source_client: self.source_client,
            dest_client: self.dest_client,
            timestamp: self.timestamp,
            message_id: self.message_id,
            message: self.message.duplicate(),
        }
    }

    /// Set the destination client of the message, and create
    /// a new packet for that
    pub fn to_new_client(&self, newclient: u64) -> (r: Packet)
        ensures
            r@ == self@.addressed_to(newclient),
    {
        Packet {
            tick: self.tick,
            source_client: self.source_client,
            dest_client: newclient,
            timestamp: self.timestamp,
            message_id: self.message_id,
            message: self.message.duplicate(),
        }
    }

    /// Set the packet message, and create a new packet for that.
    pub fn to_new_message(&self, msg: PacketMessage) -> (r: Packet)
        ensures
            r@ == self@.carrying(msg@),
    {
        Packet {
            tick: self.tick,
            source_client: self.source_client,
            dest_client: self.dest_client,
            timestamp: self.timestamp,
            message_id: self.message_id,
            message: msg,
        }
    }

    /// Make the server own the packet, stamped with the given time:
    /// the source becomes the server (0) and the timestamp is replaced.
    pub fn make_server_own_at(&self, timestamp: u64) -> (r: Packet)
        ensures
            r@ == self@.owned_by_server(timestamp),
    {
        Packet {
            tick: self.tick,
            source_client: 0,
            dest_client: self.dest_client,
            timestamp,
            message_id: self.message_id,
            message: self.message.duplicate(),
        }
    }

    /// Make the server own the packet
    ///
    /// Also reset the packet timestamp to the current time.
    pub fn make_server_own(&self) -> (r: Packet)
        ensures
            exists|t: u64| r@ == self@.owned_by_server(t),
    {
        let t = crate::clock::unix_timestamp();
        self.make_server_own_at(t)
    }
}


/// The messages that have a FlatBuffers encoding.
pub open spec fn is_encodable(m: MessageValue) -> bool {
    match m {
        MessageValue::StartRequest(_, token) => token.len() < 0x40_0000,
        MessageValue::StartResponse(_, _) => true,
        MessageValue::LoadingRequest(_) => true,
        MessageValue::LoadingResponse(_) => true,
        MessageValue::GameStartRequest => true,
        MessageValue::GameStartResponse => true,
        _ => false,
    }
}

/// The builder calls that write the message table of `m` after `ops`, the
/// message kind, and the offset of the table.
pub open spec fn message_ops(ops: Seq<FbOp>, m: MessageValue) -> (Seq<FbOp>, Message, u32) {
    match m {
        MessageValue::StartRequest(id, token) => {
            let o = ops.push(FbOp::String(token));
            let f = start_request_fields(
                StartRequestArgs { client_id: id, token: Some(fb_string_offset(ops, token)) },
            );
            (table_ops(o, f), Message::sreq, table_offset(o, f))
        },
        MessageValue::StartResponse(ack, all) => {
            let f = start_response_fields(
                StartResponseArgs { client_ack: ack, all_clients_ack: all },
            );
            (table_ops(ops, f), Message::sres, table_offset(ops, f))
        },
        MessageValue::LoadingRequest(p) => (
            table_ops(ops, percent_fields(p)),
            Message::lreq,
            table_offset(ops, percent_fields(p)),
        ),
        MessageValue::LoadingResponse(p) => (
            table_ops(ops, percent_fields(p)),
            Message::lres,
            table_offset(ops, percent_fields(p)),
        ),
        MessageValue::GameStartRequest => (
            table_ops(ops, reserved_fields(0)),
            Message::greq,
            table_offset(ops, reserved_fields(0)),
        ),
        MessageValue::GameStartResponse => (
            table_ops(ops, reserved_fields(0)),
            Message::gres,
            table_offset(ops, reserved_fields(0)),
        ),
        _ => (ops, Message::NONE, 0),
    }
}

/// The `NetPacket` fields of packet `p` whose message table is at `off`
/// and of kind `mt`.
pub open spec fn packet_args(p: PacketValue, mt: Message, off: u32) -> NetPacketArgs {
    NetPacketArgs {
        tick: p.tick,
        source_client: p.source_client,
        dest_client: p.dest_client,
        timestamp: p.timestamp,
        id: p.message_id,
        message_type: mt,
        message: Some(off),
    }
}

/// The builder calls that encode packet `p` on a fresh builder, up to and
/// including `finish`.
pub open spec fn packet_ops(p: PacketValue) -> Seq<FbOp> {
    let (o, mt, off) = message_ops(Seq::<FbOp>::empty(), p.message);
    let f = net_packet_fields(packet_args(p, mt, off));
    table_ops(o, f).push(FbOp::Finish(table_offset(o, f)))
}

/// The FlatBuffers encoding of packet `p`.
pub open spec fn packet_payload(p: PacketValue) -> Seq<u8> {
    fb_finished_bytes(packet_ops(p))
}

/// The four bytes of the low 32 bits of `n`, least significant first.
pub open spec fn le_bytes(n: nat) -> Seq<u8> {
    seq![
        (n % 256) as u8,
        ((n / 256) % 256) as u8,
        ((n / 65536) % 256) as u8,
        ((n / 16777216) % 256) as u8,
    ]
}

/// A frame around `payload` whose checksum field holds `checksum`: the
/// magic "FAMI", four zero flag bytes, the checksum and the payload size in
/// bytes, each as four little-endian bytes, then the payload.
pub open spec fn frame_with(checksum: u32, payload: Seq<u8>) -> Seq<u8> {
    seq![70u8, 65u8, 77u8, 73u8, 0u8, 0u8, 0u8, 0u8] + le_bytes(checksum as nat) + le_bytes(
        payload.len(),
    ) + payload
}

/// The frame that carries `payload`: its checksum is the CRC-32 of the
/// whole frame written with a zero checksum.
pub open spec fn frame_of(payload: Seq<u8>) -> Seq<u8> {
    frame_with(crc32(frame_with(0, payload)), payload)
}

/// The little-endian 32-bit number at `i..i + 4` of `b`.
pub open spec fn le32(b: Seq<u8>, i: int) -> nat {
    (b[i] + b[i + 1] * 256 + b[i + 2] * 65536 + b[i + 3] * 16777216) as nat
}

/// A received frame passes the header checks: more than 16 bytes, the
/// magic "FAMI", four zero flag bytes, a non-zero checksum, and a non-empty
/// payload that fits in the frame after the header.
pub open spec fn frame_accepted(b: Seq<u8>) -> bool {
    &&& b.len() > 16
    &&& b[0] == 70 && b[1] == 65 && b[2] == 77 && b[3] == 73
    &&& b[4] == 0 && b[5] == 0 && b[6] == 0 && b[7] == 0
    &&& le32(b, 8) != 0
    &&& le32(b, 12) >= 1
    &&& 16 + le32(b, 12) <= b.len()
}

/// The payload of an accepted frame, handed to the FlatBuffers reader: the
/// announced number of bytes after the header.
pub open spec fn frame_payload(b: Seq<u8>) -> Seq<u8> {
    b.subrange(16, 16 + le32(b, 12) as int)
}

/// The packet that a received `NetPacket` stands for.
pub open spec fn packet_of(np: NetPacketValue) -> PacketValue {
    PacketValue {
        tick: np.tick,
        source_client: np.source_client,
        dest_client: np.dest_client,
        timestamp: np.timestamp,
        message_id: np.id,
        message: match np.message {
            NetMessageValue::sreq { client_id, token } => MessageValue::StartRequest(
                client_id,
                match token {
                    Some(t) => t,
                    None => Seq::<char>::empty(),
                },
            ),
            NetMessageValue::sres { client_ack, all_clients_ack } => MessageValue::StartResponse(
                client_ack,
                all_clients_ack,
            ),
            NetMessageValue::lreq { percent } => MessageValue::LoadingRequest(percent),
            NetMessageValue::lres { percent } => MessageValue::LoadingResponse(percent),
            NetMessageValue::greq => MessageValue::GameStartRequest,
            NetMessageValue::gres => MessageValue::GameStartResponse,
            NetMessageValue::NONE => MessageValue::Invalid,
        },
    }
}

impl Packet {
    pub fn from_flatbuffers(p: NetPacket) -> (r: Packet)
        ensures
            r@ == packet_of(p@),
    {
        let message = match p.message {
            NetMessage::sreq { client_id, token } => PacketMessage::StartRequest(
                client_id,
                match token {
                    Some(t) => t,
                    None => String::new(),
                },
            ),
            NetMessage::sres { client_ack, all_clients_ack } => PacketMessage::StartResponse(
                client_ack,
                all_clients_ack,
            ),
            NetMessage::lreq { percent } => PacketMessage::LoadingRequest(percent),
            NetMessage::lres { percent } => PacketMessage::LoadingResponse(percent),
            NetMessage::greq => PacketMessage::GameStartRequest,
            NetMessage::gres => PacketMessage::GameStartResponse,
            NetMessage::NONE => PacketMessage::Invalid,
        };
        Packet {
            tick: p.tick,
            source_client: p.source_client,
            dest_client: p.dest_client,
            timestamp: p.timestamp,
            message_id: p.id,
            message,
        }
    }

    fn type_to_flatbuffer(&self, b: &mut FlatBufferBuilder<'static>) -> (r: (Message, Option<u32>))
        requires
            is_encodable(self.message@),
            fb_ready(fb_ops(*old(b)), 16),
        ensures
            ({
                let (o, mt, off) = message_ops(fb_ops(*old(b)), self.message@);
                &&& fb_ops(*final(b)) == o
                &&& r == (mt, Some(off))
                &&& !fb_in_table(o)
                &&& !fb_finished(o)
                &&& fb_returned(o, off)
                &&& o.len() <= fb_ops(*old(b)).len() + 6
            }),
    {
        match &self.message {
            PacketMessage::StartRequest(id, token) => {
                let ghost ops0 = fb_ops(*b);
                let s = fb_create_string(b, token.as_str());
                proof {
                    lemma_string_created(ops0, token@);
                }
                let c = create_start_request(
                    b,
                    &StartRequestArgs { client_id: *id, token: Some(s) },
                );
                (Message::sreq, Some(c))
            },
            PacketMessage::StartResponse(client_ack, all_clients_ack) => {
                let c = create_start_response(
                    b,
                    &StartResponseArgs { client_ack: *client_ack, all_clients_ack: *all_clients_ack },
                );
                (Message::sres, Some(c))
            },
            PacketMessage::LoadingRequest(percent) => {
                let c = create_loading_request(b, &LoadingRequestArgs { percent: *percent });
                (Message::lreq, Some(c))
            },
            PacketMessage::LoadingResponse(percent) => {
                let c = create_loading_response(b, &LoadingResponseArgs { percent: *percent });
                (Message::lres, Some(c))
            },
            PacketMessage::GameStartRequest => {
                let c = create_game_start_request(b, &GameStartRequestArgs { reserved: 0 });
                (Message::greq, Some(c))
            },
            PacketMessage::GameStartResponse => {
                let c = create_game_start_response(b, &GameStartResponseArgs { reserved: 0 });
                (Message::gres, Some(c))
            },
            _ => {
                proof {
                    assert(false);
                }
                (Message::NONE, None)
            },
        }
    }

    /// Writes this packet into a fresh builder and finishes the buffer with
    /// it; returns the offset of the `NetPacket` table.
    pub fn to_flatbuffers(&self, builder: &mut FlatBufferBuilder<'static>) -> (r: u32)
        requires
            is_encodable(self.message@),
            fb_ops(*old(builder)) == Seq::<FbOp>::empty(),
        ensures
            fb_ops(*final(builder)) == packet_ops(self@),
    {
        let ghost ops0 = fb_ops(*builder);
        proof {
            assert(!fb_finished(ops0));
        }
        let (mtype, mdata) = self.type_to_flatbuffer(builder);
        let ghost ops1 = fb_ops(*builder);
        let n = create_net_packet(
            builder,
            &NetPacketArgs {
                tick: self.tick,
                source_client: self.source_client,
                dest_client: self.dest_client,
                timestamp: self.timestamp,
                id: self.message_id,
                message_type: mtype,
                message: mdata,
            },
        );
        fb_finish(builder, n);
        n
    }
}

impl Packet {
    /// Whether this packet has a FlatBuffers encoding, which `create_packet`
    /// needs.
    pub fn is_encodable(&self) -> (r: bool)
        ensures
            r == is_encodable(self.message@),
    {
        match &self.message {
            PacketMessage::StartRequest(_, token) => crate::text::chars_of(token.as_str()).len()
                < 0x40_0000,
            PacketMessage::StartResponse(_, _) => true,
            PacketMessage::LoadingRequest(_) => true,
            PacketMessage::LoadingResponse(_) => true,
            PacketMessage::GameStartRequest => true,
            PacketMessage::GameStartResponse => true,
            _ => false,
        }
    }
}

/// Create the network packet
///
/// It goes like this:
///
/// | Field        | Size | Description                               |
/// | ------------ | ---- | ----------------------------------------- |
/// | magic        | 4    | The magic header for the message          |
/// | flags        | 4    | Some flags for the message. Currently 0   |
/// | checksum     | 4    | The CRC32 checksum of the whole message   |
/// | payloadsize  | 4    | Size of the payload, in bytes             |
/// | payload      | n    | The payload                               |
///
/// The checksum and the payload size are little-endian numbers; the
/// checksum is computed over the whole frame with its checksum field at
/// zero. The payload is the packet's FlatBuffers encoding.
///
/// Returns a vector with the binary data for the packet
pub fn create_packet(packet: Packet) -> (r: Vec<u8>)
    requires
        is_encodable(packet.message@),
    ensures
        r@ == frame_of(packet_payload(packet@)),
{
    let mut builder = fb_new();
    packet.to_flatbuffers(&mut builder);
    proof {
        lemma_finished_after(packet@);
    }
    let payload = fb_finished_data(&builder);
    let psize = payload.len();
    let mut res: Vec<u8> = Vec::new();
    res.push(70u8);
    res.push(65u8);
    res.push(77u8);
    res.push(73u8);
    let mut k: usize = 0;
    while k < 8
        invariant
            k <= 8,
            res@ == seq![70u8, 65u8, 77u8, 73u8] + Seq::new(k as nat, |i: int| 0u8),
        decreases 8 - k,
    {
        res.push(0u8);
        k = k + 1;
        assert(res@ =~= seq![70u8, 65u8, 77u8, 73u8] + Seq::new(k as nat, |i: int| 0u8));
    }
    res.push((psize % 256) as u8);
    res.push(((psize / 256) % 256) as u8);
    res.push(((psize / 65536) % 256) as u8);
    res.push(((psize / 16777216) % 256) as u8);
    let ghost head = res@;
    assert(head =~= seq![70u8, 65u8, 77u8, 73u8, 0u8, 0u8, 0u8, 0u8] + le_bytes(0) + le_bytes(
        psize as nat,
    ));
    let mut i: usize = 0;
    while i < payload.len()
        invariant
            i <= payload@.len(),
            res@ == head + payload@.take(i as int),
        decreases payload@.len() - i,
    {
        res.push(payload[i]);
        i = i + 1;
        assert(res@ =~= head + payload@.take(i as int));
    }
    assert(payload@.take(i as int) =~= payload@);
    assert(res@ =~= frame_with(0, payload@));
    let crc = checksum(res.as_slice());
    res.set(8, (crc % 256) as u8);
    res.set(9, ((crc / 256) % 256) as u8);
    res.set(10, ((crc / 65536) % 256) as u8);
    res.set(11, ((crc / 16777216) % 256) as u8);
    assert(res@ =~= frame_with(crc, payload@));
    res
}

proof fn lemma_string_created(ops: Seq<FbOp>, s: Seq<char>)
    ensures
        fb_in_table(ops.push(FbOp::String(s))) == fb_in_table(ops),
        fb_returned(ops.push(FbOp::String(s)), fb_string_offset(ops, s)),
        !fb_finished(ops) ==> !fb_finished(ops.push(FbOp::String(s))),
{
    let n = ops.push(FbOp::String(s));
    assert(n.drop_last() =~= ops);
    assert(n.take(ops.len() as int) =~= ops);
    assert(n[ops.len() as int] == FbOp::String(s));
    assert forall|k: int| 0 <= k < n.len() && !fb_finished(ops) implies !(n[k] is Finish) by {
        if k < ops.len() {
            assert(n[k] == ops[k]);
        }
    }
}

proof fn lemma_finished_after(p: PacketValue)
    ensures
        fb_finished(packet_ops(p)),
{
    let o = packet_ops(p);
    assert(o[o.len() - 1] is Finish);
}

/// The packet that the frame `b` carries: none when the frame fails the
/// header checks or its payload holds no `NetPacket`.
pub open spec fn decoded_packet(b: Seq<u8>) -> Option<PacketValue> {
    if !frame_accepted(b) {
        None
    } else {
        match net_packet_of(frame_payload(b)) {
            Some(np) => Some(packet_of(np)),
            None => None,
        }
    }
}

/// Decode the network packet
///
/// The header is checked and the payload is read as a FlatBuffers
/// `NetPacket`, which becomes the packet.
pub fn decode_packet(packet: &[u8]) -> (r: Option<Packet>)
    ensures
        opt_packet_view(r) == decoded_packet(packet@),
{
    if packet.len() <= 16 {
        return None;
    }
    if !(packet[0] == 70 && packet[1] == 65 && packet[2] == 77 && packet[3] == 73) {
        return None;
    }
    if packet[4] != 0 || packet[5] != 0 || packet[6] != 0 || packet[7] != 0 {
        return None;
    }
    let checksum: u64 = packet[8] as u64 + (packet[9] as u64) * 256 + (packet[10] as u64) * 65536
        + (packet[11] as u64) * 16777216;
    if checksum == 0 {
        return None;
    }
    let psize: u64 = packet[12] as u64 + (packet[13] as u64) * 256 + (packet[14] as u64) * 65536
        + (packet[15] as u64) * 16777216;
    if psize == 0 || psize > (packet.len() - 16) as u64 {
        return None;
    }
    let end = 16 + psize as usize;
    let payload = &packet[16..end];
    assert(payload@ == frame_payload(packet@));
    match read_net_packet(payload) {
        Some(np) => Some(Packet::from_flatbuffers(np)),
        None => None,
    }
}

/// The token that a client's first packet identifies it with: that of a
/// start request sent before the first tick by the client it names; `None`
/// for any other packet or when no packet could be read.
pub open spec fn identification_of(p: Option<PacketValue>) -> Option<Seq<char>> {
    match p {
        Some(pv) => if pv.tick > 0 {
            None
        } else {
            match pv.message {
                MessageValue::StartRequest(id, token) => if id == pv.source_client {
                    Some(token)
                } else {
                    None
                },
                _ => None,
            }
        },
        None => None,
    }
}

/// The view of an optional packet.
pub open spec fn opt_packet_view(p: Option<Packet>) -> Option<PacketValue> {
    match p {
        Some(x) => Some(x@),
        None => None,
    }
}

/// The token that the first packet of a client, as decoded, identifies it
/// with.
pub fn identification_token(packet: Option<Packet>) -> (r: Option<String>)
    ensures
        match r {
            Some(t) => identification_of(opt_packet_view(packet)) == Some(t@),
            None => identification_of(opt_packet_view(packet)) is None,
        },
{
    match packet {
        Some(p) => {
            if p.tick > 0 {
                return None;
            }
            match p.message {
                PacketMessage::StartRequest(id, token) => {
                    if id == p.source_client {
                        Some(token)
                    } else {
                        None
                    }
                },
                _ => None,
            }
        },
        None => None,
    }
}

/// Every client of `clients` has entered the game.
pub open spec fn all_in_game(clients: Seq<FClient>) -> bool {
    forall|i: int| 0 <= i < clients.len() ==> clients[i].spec_state() == ClientState::InGame
}

/// The packets the server pushes after accepting `p`, stamped `t` where
/// the server owns one: for a loading request, the loading response sent
/// back to the client by the server and the same response from the client
/// to everybody; likewise for a game start request, once every client is
/// in the game (`all_in_game`), and none before; nothing otherwise.
pub open spec fn follow_ups(p: PacketValue, t: u64, all_in_game: bool) -> Seq<PacketValue> {
    match p.message {
        MessageValue::LoadingRequest(percent) => seq![
            p.owned_by_server(t).addressed_to(p.source_client).carrying(
                MessageValue::LoadingResponse(percent),
            ),
            p.addressed_to(0).carrying(MessageValue::LoadingResponse(percent)),
        ],
        MessageValue::GameStartRequest => if all_in_game {
            seq![
                p.owned_by_server(t).addressed_to(p.source_client).carrying(
                    MessageValue::GameStartResponse,
                ),
                p.addressed_to(0).carrying(MessageValue::GameStartResponse),
            ]
        } else {
            Seq::<PacketValue>::empty()
        },
        _ => Seq::<PacketValue>::empty(),
    }
}

/// The registry went from `old` to `new` by pushing the packets `ps` in
/// order, each from the holder of `token`.
pub open spec fn pushes_answered(
    old: Seq<FClient>,
    new: Seq<FClient>,
    token: Seq<char>,
    ps: Seq<PacketValue>,
) -> bool
    decreases ps.len(),
{
    if ps.len() == 0 {
        new == old
    } else {
        exists|mid: Seq<FClient>, b: bool|
            #[trigger] push_answered(old, mid, token, ps[0], b) && pushes_answered(
                mid,
                new,
                token,
                ps.drop_first(),
            )
    }
}

/// What became of a game packet.
#[derive(Debug, PartialEq, Eq, Structural, Clone, Copy)]
pub enum PacketHandling {
    /// It was accepted and delivered, and its follow-ups pushed.
    Handled,
    /// It came before every client was connected, and was dropped.
    TooEarly,
    /// The server refused it.
    Refused,
    /// Its token is held by no client.
    UnknownToken,
}

/// Pushes the follow-ups of an accepted packet.
fn push_follow_ups(server: &mut FServer, token: &str, ps: Vec<Packet>)
    requires
        !unknown_token(old(server).clients@, token@),
    ensures
        final(server).name == old(server).name,
        pushes_answered(old(server).clients@, final(server).clients@, token@, ps@.map_values(
            |p: Packet| p@,
        )),
    decreases ps@.len(),
{
    let ghost all = ps@.map_values(|p: Packet| p@);
    let mut ps = ps;
    if ps.len() == 0 {
        return ;
    }
    let p = ps.remove(0);
    let ghost before = server.clients@;
    let res = send_push_game_packet_message(server, token, p);
    let ghost mid = server.clients@;
    proof {
        lemma_push_answered_keeps_logins(before, mid, token@, p@, res->Ok_0);
        lemma_same_logins_index(before, mid, 0, token@);
    }
    push_follow_ups(server, token, ps);
    proof {
        assert(all.drop_first() =~= ps@.map_values(|p: Packet| p@));
        assert(all[0] == p@);
        assert(push_answered(before, mid, token@, all[0], res->Ok_0));
    }
}

/// Handles a game packet from the holder of `token`. Only once every
/// client is connected are packets taken: the packet is pushed, and when
/// accepted its follow-ups are pushed too (a loading response for a loading
/// request; a game start response for a game start request, which comes
/// only when every client has asked to start).
pub fn handle_packet(server: &mut FServer, packet: Packet, token: &str) -> (r: PacketHandling)
    ensures
        final(server).name == old(server).name,
        unknown_token(old(server).clients@, token@) ==> r == PacketHandling::UnknownToken
            && final(server).clients@ == old(server).clients@,
        !unknown_token(old(server).clients@, token@) && !all_connected(old(server).clients@) ==> r
            == PacketHandling::TooEarly && final(server).clients@ == old(server).clients@,
        !unknown_token(old(server).clients@, token@) && all_connected(old(server).clients@) ==> exists|
            mid: Seq<FClient>,
            b: bool,
        |
            #[trigger] push_answered(old(server).clients@, mid, token@, packet@, b) && (if b {
                r == PacketHandling::Handled && exists|t: u64|
                    pushes_answered(
                        mid,
                        final(server).clients@,
                        token@,
                        #[trigger] follow_ups(packet@, t, all_in_game(mid)),
                    )
            } else {
                r == PacketHandling::Refused && final(server).clients@ == mid
            }),
{
    let npacket = packet.duplicate();
    match send_check_all_clients_connected_message(server, token) {
        Ok(true) => {},
        Ok(false) => return PacketHandling::TooEarly,
        Err(_) => return PacketHandling::UnknownToken,
    }
    let ghost before = server.clients@;
    let accepted = match send_push_game_packet_message(server, token, packet) {
        Ok(b) => b,
        Err(_) => false,
    };
    let ghost mid = server.clients@;
    if !accepted {
        return PacketHandling::Refused;
    }
    proof {
        lemma_push_answered_keeps_logins(before, mid, token@, npacket@, true);
        lemma_same_logins_index(before, mid, 0, token@);
    }
    let mut ps: Vec<Packet> = Vec::new();
    let ghost t: u64 = 0;
    match &npacket.message {
        PacketMessage::LoadingRequest(percent) => {
            let own = npacket.make_server_own();
            proof {
                t = choose|t: u64| own@ == npacket@.owned_by_server(t);
            }
            ps.push(
                own.to_new_client(npacket.source_client).to_new_message(
                    PacketMessage::LoadingResponse(*percent),
                ),
            );
            ps.push(npacket.to_new_client(0).to_new_message(PacketMessage::LoadingResponse(*percent)));
        },
        PacketMessage::GameStartRequest => {
            if server.all_clients_in_game() {
                let own = npacket.make_server_own();
                proof {
                    t = choose|t: u64| own@ == npacket@.owned_by_server(t);
                }
                ps.push(
                    own.to_new_client(npacket.source_client).to_new_message(
                        PacketMessage::GameStartResponse,
                    ),
                );
                ps.push(npacket.to_new_client(0).to_new_message(PacketMessage::GameStartResponse));
            }
        },
        _ => {},
    }
    assert(ps@.map_values(|p: Packet| p@) =~= follow_ups(npacket@, t, all_in_game(mid)));
    push_follow_ups(server, token, ps);
    PacketHandling::Handled
}

/// `le_bytes` writes the numbers below 2^32 so that `le32` reads them back.
pub proof fn lemma_le_bytes(n: nat)
    requires
        n < 0x1_0000_0000,
    ensures
        le32(le_bytes(n), 0) == n,
{
    let b = le_bytes(n);
    assert(n / 65536 == (n / 256) / 256) by {
        vstd::arithmetic::div_mod::lemma_div_denominator(n as int, 256, 256);
    }
    assert(n / 16777216 == (n / 65536) / 256) by {
        vstd::arithmetic::div_mod::lemma_div_denominator(n as int, 65536, 256);
    }
    assert((n / 16777216) < 256);
    assert(n == (n / 256) * 256 + n % 256);
    assert(n / 256 == (n / 65536) * 256 + (n / 256) % 256);
    assert(n / 65536 == (n / 16777216) * 256 + (n / 65536) % 256);
    assert(b[0] == n % 256);
    assert(b[1] == (n / 256) % 256);
    assert(b[2] == (n / 65536) % 256);
    assert(b[3] == (n / 16777216) % 256);
}

/// What `decode_packet` hands the FlatBuffers reader is what
/// `create_packet` wrote: every frame made around a non-empty payload of
/// fewer than 2^32 bytes passes the header checks, and its payload comes
/// back whole, unless its checksum happens to be zero, which the header
/// checks refuse.
pub proof fn lemma_frame_round_trip(payload: Seq<u8>)
    requires
        0 < payload.len() < 0x1_0000_0000,
        crc32(frame_with(0, payload)) != 0,
    ensures
        frame_accepted(frame_of(payload)),
        frame_payload(frame_of(payload)) == payload,
{
    let c = crc32(frame_with(0, payload));
    let f = frame_of(payload);
    assert(f.len() == 16 + payload.len());
    assert(f[0] == 70 && f[1] == 65 && f[2] == 77 && f[3] == 73);
    assert(f[4] == 0 && f[5] == 0 && f[6] == 0 && f[7] == 0);
    lemma_le_bytes(c as nat);
    lemma_le_bytes(payload.len());
    assert(f.subrange(8, 12) =~= le_bytes(c as nat));
    assert(f.subrange(12, 16) =~= le_bytes(payload.len()));
    assert(le32(f, 8) == le32(le_bytes(c as nat), 0));
    assert(le32(f, 12) == le32(le_bytes(payload.len()), 0));
    assert(f.subrange(16, 16 + le32(f, 12) as int) =~= payload);
}

/// The number the schema gives each kind of message in a packet's message
/// kind field.
pub open spec fn schema_kind(m: MessageValue) -> u8 {
    match m {
        MessageValue::StartRequest(_, _) => 1,
        MessageValue::StartResponse(_, _) => 2,
        MessageValue::LoadingRequest(_) => 3,
        MessageValue::LoadingResponse(_) => 4,
        MessageValue::GameStartRequest => 5,
        MessageValue::GameStartResponse => 6,
        _ => 0,
    }
}

/// Writing a packet pushes each of its values, unchanged, into the slot the
/// schema gives it: tick (4), source (6), destination (8), timestamp (10),
/// id (12) and message kind (14) of the root table, and the fields of the
/// message table (a start request's client id (4) and token, a start
/// response's acknowledged client (4) and all-acknowledged flag (6), a
/// loading percentage (4), a game start's reserved zero (4)).
pub proof fn lemma_packet_ops_carry_fields(p: PacketValue)
    requires
        is_encodable(p.message),
    ensures
        packet_ops(p).contains(FbOp::U64(4, p.tick, 0)),
        packet_ops(p).contains(FbOp::U64(6, p.source_client, 0)),
        packet_ops(p).contains(FbOp::U64(8, p.dest_client, 0)),
        packet_ops(p).contains(FbOp::U64(10, p.timestamp, 0)),
        packet_ops(p).contains(FbOp::U64(12, p.message_id, 0)),
        packet_ops(p).contains(FbOp::U8(14, schema_kind(p.message), 0)),
        match p.message {
            MessageValue::StartRequest(id, token) => packet_ops(p).contains(FbOp::String(token))
                && packet_ops(p).contains(FbOp::U64(4, id, 0)),
            MessageValue::StartResponse(ack, all) => packet_ops(p).contains(FbOp::U64(4, ack, 0))
                && packet_ops(p).contains(FbOp::Bool(6, all, false)),
            MessageValue::LoadingRequest(x) => packet_ops(p).contains(FbOp::U16(4, x, 0)),
            MessageValue::LoadingResponse(x) => packet_ops(p).contains(FbOp::U16(4, x, 0)),
            MessageValue::GameStartRequest => packet_ops(p).contains(FbOp::U32(4, 0, 0)),
            MessageValue::GameStartResponse => packet_ops(p).contains(FbOp::U32(4, 0, 0)),
            _ => true,
        },
{
    let (o, mt, off) = message_ops(Seq::<FbOp>::empty(), p.message);
    let f = net_packet_fields(packet_args(p, mt, off));
    let all = packet_ops(p);
    let n: int = o.len() as int + 1;
    assert(f.len() == 7);
    assert(all[n + 0] == f[0]);
    assert(all[n + 1] == f[1]);
    assert(all[n + 2] == f[2]);
    assert(all[n + 3] == f[3]);
    assert(all[n + 4] == f[4]);
    assert(all[n + 6] == f[6]);
    assert(crate::network::message_code(mt) == schema_kind(p.message));
    match p.message {
        MessageValue::StartRequest(id, token) => {
            assert(all[0] == o[0]);
            assert(all[2] == o[2]);
        },
        _ => {
            assert(all[1] == o[1]);
            assert(all[2] == o[2]);
        },
    }
}

/// A received `NetPacket` becomes a packet with the same numbers, and its
/// message keeps its kind and every value it carries (a missing token
/// becomes the empty one; a packet with no message is invalid).
pub proof fn lemma_received_packet_keeps_fields(np: NetPacketValue)
    ensures
        packet_of(np).tick == np.tick,
        packet_of(np).source_client == np.source_client,
        packet_of(np).dest_client == np.dest_client,
        packet_of(np).timestamp == np.timestamp,
        packet_of(np).message_id == np.id,
        np.message matches NetMessageValue::sreq { client_id, token } ==> packet_of(np).message
            matches MessageValue::StartRequest(i, t) && i == client_id && (token matches Some(x)
            ==> t == x) && (token is None ==> t.len() == 0),
        np.message matches NetMessageValue::sres { client_ack, all_clients_ack }
            ==> packet_of(np).message matches MessageValue::StartResponse(a, f) && a == client_ack
            && f == all_clients_ack,
        np.message matches NetMessageValue::lreq { percent } ==> packet_of(np).message
            matches MessageValue::LoadingRequest(x) && x == percent,
        np.message matches NetMessageValue::lres { percent } ==> packet_of(np).message
            matches MessageValue::LoadingResponse(x) && x == percent,
        np.message is greq ==> packet_of(np).message is GameStartRequest,
        np.message is gres ==> packet_of(np).message is GameStartResponse,
        np.message is NONE ==> packet_of(np).message is Invalid,
{
}

} // verus!
