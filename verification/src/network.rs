//! The FlatBuffers schema of a game packet: the tables that make up a
//! `NetPacket`, how each is written with the builder, and the plain values
//! read back from a received one.
use flatbuffers::FlatBufferBuilder;
use vstd::prelude::*;

use crate::flatbuf::{
    fb_create_string, fb_create_vector_u64, fb_end_table, fb_finished, fb_in_table, fb_open_table, fb_ops, fb_push_bool, fb_push_offset,
    fb_push_u16, fb_push_u32, fb_push_u64, fb_push_u8, fb_returned, fb_room, fb_start_table,
    fb_string_offset, fb_vector_offset, fb_table_end, fb_table_start, lemma_table_slots, fb_open_slots, slots_ok,
    FbOp,
};

verus! {

/// The kind of message a `NetPacket` carries (the union's type field).
#[allow(non_camel_case_types)]
#[derive(Clone, Copy, PartialEq, Eq, Hash, Debug, Structural)]
pub enum Message {
    NONE,
    sreq,
    sres,
    lreq,
    lres,
    greq,
    gres,
}

/// The number that stands for a message kind on the wire.
pub open spec fn message_code(m: Message) -> u8 {
    match m {
        Message::NONE => 0,
        Message::sreq => 1,
        Message::sres => 2,
        Message::lreq => 3,
        Message::lres => 4,
        Message::greq => 5,
        Message::gres => 6,
    }
}

/// The name of a message kind.
pub open spec fn message_name(m: Message) -> Seq<char> {
    match m {
        Message::NONE => "NONE"@,
        Message::sreq => "sreq"@,
        Message::sres => "sres"@,
        Message::lreq => "lreq"@,
        Message::lres => "lres"@,
        Message::greq => "greq"@,
        Message::gres => "gres"@,
    }
}

/// The number that stands for a message kind on the wire.
pub fn message_to_u8(m: Message) -> (r: u8)
    ensures
        r == message_code(m),
{
    match m {
        Message::NONE => 0,
        Message::sreq => 1,
        Message::sres => 2,
        Message::lreq => 3,
        Message::lres => 4,
        Message::greq => 5,
        Message::gres => 6,
    }
}

pub fn enum_name_message(e: Message) -> (r: &'static str)
    ensures
        r@ == message_name(e),
{
    match e {
        Message::NONE => "NONE",
        Message::sreq => "sreq",
        Message::sres => "sres",
        Message::lreq => "lreq",
        Message::lres => "lres",
        Message::greq => "greq",
        Message::gres => "gres",
    }
}

/// Marks the offset of a message union value.
pub struct MessageUnionTableOffset;

/// Marks the offset of a `StartRequest` table.
pub struct StartRequestOffset;

/// Marks the offset of a `StartResponse` table.
pub struct StartResponseOffset;

/// Marks the offset of a `LoadingRequest` table.
pub struct LoadingRequestOffset;

/// Marks the offset of a `LoadingResponse` table.
pub struct LoadingResponseOffset;

/// Marks the offset of a `GameStartRequest` table.
pub struct GameStartRequestOffset;

/// Marks the offset of a `GameStartResponse` table.
pub struct GameStartResponseOffset;

/// Marks the offset of a `NetPacket` table.
pub struct NetPacketOffset;

pub struct StartRequestArgs {
    pub client_id: u64,
    /// The offset of the token string, if any.
    pub token: Option<u32>,
}

pub struct StartResponseArgs {
    pub client_ack: u64,
    pub all_clients_ack: bool,
}

pub struct LoadingRequestArgs {
    pub percent: u16,
}

pub struct LoadingResponseArgs {
    pub percent: u16,
}

pub struct GameStartRequestArgs {
    pub reserved: u32,
}

pub struct GameStartResponseArgs {
    pub reserved: u32,
}

pub struct NetPacketArgs {
    pub tick: u64,
    pub source_client: u64,
    pub dest_client: u64,
    pub timestamp: u64,
    pub id: u64,
    pub message_type: Message,
    /// The offset of the message table, if any.
    pub message: Option<u32>,
}

impl Default for StartRequestArgs {
    /// No client id and no token.
    fn default() -> (r: StartRequestArgs)
        ensures
            r.client_id == 0,
            r.token is None,
    {
        StartRequestArgs { client_id: 0, token: None }
    }
}

impl Default for StartResponseArgs {
    /// No client acknowledged.
    fn default() -> (r: StartResponseArgs)
        ensures
            r.client_ack == 0,
            !r.all_clients_ack,
    {
        StartResponseArgs { client_ack: 0, all_clients_ack: false }
    }
}

impl Default for LoadingRequestArgs {
    /// Nothing loaded.
    fn default() -> (r: LoadingRequestArgs)
        ensures
            r.percent == 0,
    {
        LoadingRequestArgs { percent: 0 }
    }
}

impl Default for LoadingResponseArgs {
    /// Nothing loaded.
    fn default() -> (r: LoadingResponseArgs)
        ensures
            r.percent == 0,
    {
        LoadingResponseArgs { percent: 0 }
    }
}

impl Default for GameStartRequestArgs {
    /// The reserved field at zero.
    fn default() -> (r: GameStartRequestArgs)
        ensures
            r.reserved == 0,
    {
        GameStartRequestArgs { reserved: 0 }
    }
}

impl Default for GameStartResponseArgs {
    /// The reserved field at zero.
    fn default() -> (r: GameStartResponseArgs)
        ensures
            r.reserved == 0,
    {
        GameStartResponseArgs { reserved: 0 }
    }
}

impl Default for NetPacketArgs {
    /// Every number zero, and no message.
    fn default() -> (r: NetPacketArgs)
        ensures
            r.tick == 0,
            r.source_client == 0,
            r.dest_client == 0,
            r.timestamp == 0,
            r.id == 0,
            r.message_type == Message::NONE,
            r.message is None,
    {
        NetPacketArgs {
            tick: 0,
            source_client: 0,
            dest_client: 0,
            timestamp: 0,
            id: 0,
            message_type: Message::NONE,
            message: None,
        }
    }
}

/// The message table of a received `NetPacket`, read as plain values.
#[allow(non_camel_case_types)]
pub enum NetMessage {
    NONE,
    sreq { client_id: u64, token: Option<String> },
    sres { client_ack: u64, all_clients_ack: bool },
    lreq { percent: u16 },
    lres { percent: u16 },
    greq,
    gres,
}

/// A received `NetPacket` table, read as plain values.
pub struct NetPacket {
    pub tick: u64,
    pub source_client: u64,
    pub dest_client: u64,
    pub timestamp: u64,
    pub id: u64,
    pub message: NetMessage,
}

/// The value of a `NetMessage`.
#[allow(non_camel_case_types)]
pub enum NetMessageValue {
    NONE,
    sreq { client_id: u64, token: Option<Seq<char>> },
    sres { client_ack: u64, all_clients_ack: bool },
    lreq { percent: u16 },
    lres { percent: u16 },
    greq,
    gres,
}

/// The value of a `NetPacket`.
pub struct NetPacketValue {
    pub tick: u64,
    pub source_client: u64,
    pub dest_client: u64,
    pub timestamp: u64,
    pub id: u64,
    pub message: NetMessageValue,
}

impl View for NetMessage {
    type V = NetMessageValue;

    open spec fn view(&self) -> NetMessageValue {
        match self {
            NetMessage::NONE => NetMessageValue::NONE,
            NetMessage::sreq { client_id, token } => NetMessageValue::sreq {
                client_id: *client_id,
                token: match token {
                    Some(t) => Some(t@),
                    None => None,
                },
            },
            NetMessage::sres { client_ack, all_clients_ack } => NetMessageValue::sres {
                client_ack: *client_ack,
                all_clients_ack: *all_clients_ack,
            },
            NetMessage::lreq { percent } => NetMessageValue::lreq { percent: *percent },
            NetMessage::lres { percent } => NetMessageValue::lres { percent: *percent },
            NetMessage::greq => NetMessageValue::greq,
            NetMessage::gres => NetMessageValue::gres,
        }
    }
}

impl View for NetPacket {
    type V = NetPacketValue;

    open spec fn view(&self) -> NetPacketValue {
        NetPacketValue {
            tick: self.tick,
            source_client: self.source_client,
            dest_client: self.dest_client,
            timestamp: self.timestamp,
            id: self.id,
            message: self.message@,
        }
    }
}

/// The calls `ops` followed by those that write a table with the given field
/// calls.
pub open spec fn table_ops(ops: Seq<FbOp>, fields: Seq<FbOp>) -> Seq<FbOp> {
    (ops.push(FbOp::StartTable) + fields).push(FbOp::EndTable(fb_table_start(ops)))
}

/// The offset of the table that `table_ops(ops, fields)` writes.
pub open spec fn table_offset(ops: Seq<FbOp>, fields: Seq<FbOp>) -> u32 {
    fb_table_end(ops.push(FbOp::StartTable) + fields, fb_table_start(ops))
}

pub open spec fn optional_offset(slot: u16, off: Option<u32>) -> Seq<FbOp> {
    match off {
        Some(x) => seq![FbOp::Offset(slot, x)],
        None => seq![],
    }
}

pub open spec fn start_request_fields(a: StartRequestArgs) -> Seq<FbOp> {
    seq![FbOp::U64(4, a.client_id, 0)] + optional_offset(6, a.token)
}

pub open spec fn start_response_fields(a: StartResponseArgs) -> Seq<FbOp> {
    seq![FbOp::U64(4, a.client_ack, 0), FbOp::Bool(6, a.all_clients_ack, false)]
}

pub open spec fn percent_fields(percent: u16) -> Seq<FbOp> {
    seq![FbOp::U16(4, percent, 0)]
}

pub open spec fn reserved_fields(reserved: u32) -> Seq<FbOp> {
    seq![FbOp::U32(4, reserved, 0)]
}

pub open spec fn net_packet_fields(a: NetPacketArgs) -> Seq<FbOp> {
    seq![
        FbOp::U64(12, a.id, 0),
        FbOp::U64(10, a.timestamp, 0),
        FbOp::U64(8, a.dest_client, 0),
        FbOp::U64(6, a.source_client, 0),
        FbOp::U64(4, a.tick, 0),
    ] + optional_offset(16, a.message) + seq![FbOp::U8(14, message_code(a.message_type), 0)]
}

/// The builder accepts a new table after `ops`, with `n` more calls to come.
pub open spec fn fb_ready(ops: Seq<FbOp>, n: int) -> bool {
    &&& !fb_in_table(ops)
    &&& !fb_finished(ops)
    &&& ops.len() + n < 64
}

proof fn lemma_push_field(ops: Seq<FbOp>, op: FbOp)
    requires
        !(op is StartTable),
        !(op is EndTable),
    ensures
        fb_in_table(ops.push(op)) == fb_in_table(ops),
        fb_open_table(ops.push(op)) == fb_open_table(ops),
{
    assert(ops.push(op).drop_last() =~= ops);
}

proof fn lemma_start_table(ops: Seq<FbOp>)
    ensures
        fb_in_table(ops.push(FbOp::StartTable)),
        fb_open_table(ops.push(FbOp::StartTable)) == fb_table_start(ops),
{
    assert(ops.push(FbOp::StartTable).drop_last() =~= ops);
}

proof fn lemma_end_table(ops: Seq<FbOp>, start: u32)
    ensures
        !fb_in_table(ops.push(FbOp::EndTable(start))),
        fb_returned(ops.push(FbOp::EndTable(start)), fb_table_end(ops, start)),
{
    let n = ops.push(FbOp::EndTable(start));
    assert(n.take(ops.len() as int) =~= ops);
    assert(n[ops.len() as int] == FbOp::EndTable(start));
}

proof fn lemma_returned_push(ops: Seq<FbOp>, op: FbOp, off: u32)
    requires
        fb_returned(ops, off),
    ensures
        fb_returned(ops.push(op), off),
{
    let k = choose|k: int|
        0 <= k < ops.len() && (match #[trigger] ops[k] {
            FbOp::String(s) => off == fb_string_offset(ops.take(k), s),
            FbOp::VecU64(v) => off == fb_vector_offset(ops.take(k), v),
            FbOp::EndTable(start) => off == fb_table_end(ops.take(k), start),
            _ => false,
        });
    let n = ops.push(op);
    assert(n.take(k) =~= ops.take(k));
    assert(n[k] == ops[k]);
}

proof fn lemma_not_finished_push(ops: Seq<FbOp>, op: FbOp)
    requires
        !fb_finished(ops),
        !(op is Finish),
    ensures
        !fb_finished(ops.push(op)),
{
    assert forall|k: int| 0 <= k < ops.push(op).len() implies !(ops.push(op)[k] is Finish) by {
        if k < ops.len() {
            assert(ops.push(op)[k] == ops[k]);
        }
    }
}

/// `new` continues the table that `old` is writing: still open, same start,
/// not finished if `old` was not, and every offset returned before is still
/// one that was returned.
pub open spec fn keeps_building(old: Seq<FbOp>, new: Seq<FbOp>) -> bool {
    &&& fb_in_table(new)
    &&& fb_open_table(new) == fb_open_table(old)
    &&& !fb_finished(old) ==> !fb_finished(new)
    &&& forall|off: u32| fb_returned(old, off) ==> fb_returned(new, off)
}

/// Writes one field of the open table.
fn field_u64(b: &mut FlatBufferBuilder<'static>, slot: u16, x: u64)
    requires
        fb_in_table(fb_ops(*old(b))),
        fb_room(fb_ops(*old(b))),
    ensures
        fb_ops(*final(b)) == fb_ops(*old(b)).push(FbOp::U64(slot, x, 0)),
        keeps_building(fb_ops(*old(b)), fb_ops(*final(b))),
{
    fb_push_u64(b, slot, x, 0);
    proof {
        lemma_push_field(fb_ops(*old(b)), FbOp::U64(slot, x, 0));
        if !fb_finished(fb_ops(*old(b))) {
            lemma_not_finished_push(fb_ops(*old(b)), FbOp::U64(slot, x, 0));
        }
        assert forall|off: u32| fb_returned(fb_ops(*old(b)), off) implies fb_returned(
            fb_ops(*b),
            off,
        ) by {
            lemma_returned_push(fb_ops(*old(b)), FbOp::U64(slot, x, 0), off);
        }
    }
}

/// Writes one field of the open table.
pub(crate) fn field_u32(b: &mut FlatBufferBuilder<'static>, slot: u16, x: u32)
    requires
        fb_in_table(fb_ops(*old(b))),
        fb_room(fb_ops(*old(b))),
    ensures
        fb_ops(*final(b)) == fb_ops(*old(b)).push(FbOp::U32(slot, x, 0)),
        keeps_building(fb_ops(*old(b)), fb_ops(*final(b))),
{
    fb_push_u32(b, slot, x, 0);
    proof {
        lemma_push_field(fb_ops(*old(b)), FbOp::U32(slot, x, 0));
        if !fb_finished(fb_ops(*old(b))) {
            lemma_not_finished_push(fb_ops(*old(b)), FbOp::U32(slot, x, 0));
        }
        assert forall|off: u32| fb_returned(fb_ops(*old(b)), off) implies fb_returned(
            fb_ops(*b),
            off,
        ) by {
            lemma_returned_push(fb_ops(*old(b)), FbOp::U32(slot, x, 0), off);
        }
    }
}

/// Writes one field of the open table.
fn field_u16(b: &mut FlatBufferBuilder<'static>, slot: u16, x: u16)
    requires
        fb_in_table(fb_ops(*old(b))),
        fb_room(fb_ops(*old(b))),
    ensures
        fb_ops(*final(b)) == fb_ops(*old(b)).push(FbOp::U16(slot, x, 0)),
        keeps_building(fb_ops(*old(b)), fb_ops(*final(b))),
{
    fb_push_u16(b, slot, x, 0);
    proof {
        lemma_push_field(fb_ops(*old(b)), FbOp::U16(slot, x, 0));
        if !fb_finished(fb_ops(*old(b))) {
            lemma_not_finished_push(fb_ops(*old(b)), FbOp::U16(slot, x, 0));
        }
        assert forall|off: u32| fb_returned(fb_ops(*old(b)), off) implies fb_returned(
            fb_ops(*b),
            off,
        ) by {
            lemma_returned_push(fb_ops(*old(b)), FbOp::U16(slot, x, 0), off);
        }
    }
}

/// Writes one field of the open table.
fn field_u8(b: &mut FlatBufferBuilder<'static>, slot: u16, x: u8)
    requires
        fb_in_table(fb_ops(*old(b))),
        fb_room(fb_ops(*old(b))),
    ensures
        fb_ops(*final(b)) == fb_ops(*old(b)).push(FbOp::U8(slot, x, 0)),
        keeps_building(fb_ops(*old(b)), fb_ops(*final(b))),
{
    fb_push_u8(b, slot, x, 0);
    proof {
        lemma_push_field(fb_ops(*old(b)), FbOp::U8(slot, x, 0));
        if !fb_finished(fb_ops(*old(b))) {
            lemma_not_finished_push(fb_ops(*old(b)), FbOp::U8(slot, x, 0));
        }
        assert forall|off: u32| fb_returned(fb_ops(*old(b)), off) implies fb_returned(
            fb_ops(*b),
            off,
        ) by {
            lemma_returned_push(fb_ops(*old(b)), FbOp::U8(slot, x, 0), off);
        }
    }
}

/// Writes one field of the open table.
fn field_bool(b: &mut FlatBufferBuilder<'static>, slot: u16, x: bool)
    requires
        fb_in_table(fb_ops(*old(b))),
        fb_room(fb_ops(*old(b))),
    ensures
        fb_ops(*final(b)) == fb_ops(*old(b)).push(FbOp::Bool(slot, x, false)),
        keeps_building(fb_ops(*old(b)), fb_ops(*final(b))),
{
    fb_push_bool(b, slot, x, false);
    proof {
        lemma_push_field(fb_ops(*old(b)), FbOp::Bool(slot, x, false));
        if !fb_finished(fb_ops(*old(b))) {
            lemma_not_finished_push(fb_ops(*old(b)), FbOp::Bool(slot, x, false));
        }
        assert forall|off: u32| fb_returned(fb_ops(*old(b)), off) implies fb_returned(
            fb_ops(*b),
            off,
        ) by {
            lemma_returned_push(fb_ops(*old(b)), FbOp::Bool(slot, x, false), off);
        }
    }
}

/// Writes a reference to an earlier string or table in the open table.
pub(crate) fn field_offset(b: &mut FlatBufferBuilder<'static>, slot: u16, x: u32)
    requires
        fb_in_table(fb_ops(*old(b))),
        fb_room(fb_ops(*old(b))),
        fb_returned(fb_ops(*old(b)), x),
    ensures
        fb_ops(*final(b)) == fb_ops(*old(b)).push(FbOp::Offset(slot, x)),
        keeps_building(fb_ops(*old(b)), fb_ops(*final(b))),
{
    fb_push_offset(b, slot, x);
    proof {
        lemma_push_field(fb_ops(*old(b)), FbOp::Offset(slot, x));
        if !fb_finished(fb_ops(*old(b))) {
            lemma_not_finished_push(fb_ops(*old(b)), FbOp::Offset(slot, x));
        }
        assert forall|off: u32| fb_returned(fb_ops(*old(b)), off) implies fb_returned(
            fb_ops(*b),
            off,
        ) by {
            lemma_returned_push(fb_ops(*old(b)), FbOp::Offset(slot, x), off);
        }
    }
}

/// Opens a table.
pub(crate) fn open_table(b: &mut FlatBufferBuilder<'static>) -> (start: u32)
    requires
        !fb_in_table(fb_ops(*old(b))),
        !fb_finished(fb_ops(*old(b))),
        fb_room(fb_ops(*old(b))),
    ensures
        fb_ops(*final(b)) == fb_ops(*old(b)).push(FbOp::StartTable),
        start == fb_table_start(fb_ops(*old(b))),
        fb_in_table(fb_ops(*final(b))),
        fb_open_table(fb_ops(*final(b))) == start,
        !fb_finished(fb_ops(*final(b))),
        forall|off: u32| fb_returned(fb_ops(*old(b)), off) ==> fb_returned(fb_ops(*final(b)), off),
{
    let start = fb_start_table(b);
    proof {
        lemma_start_table(fb_ops(*old(b)));
        lemma_not_finished_push(fb_ops(*old(b)), FbOp::StartTable);
        assert forall|off: u32| fb_returned(fb_ops(*old(b)), off) implies fb_returned(
            fb_ops(*b),
            off,
        ) by {
            lemma_returned_push(fb_ops(*old(b)), FbOp::StartTable, off);
        }
    }
    start
}

/// Closes the open table, started at `start`.
pub(crate) fn close_table(b: &mut FlatBufferBuilder<'static>, start: u32) -> (r: u32)
    requires
        fb_in_table(fb_ops(*old(b))),
        slots_ok(fb_open_slots(fb_ops(*old(b)))),
        fb_room(fb_ops(*old(b))),
        !fb_finished(fb_ops(*old(b))),
        start == fb_open_table(fb_ops(*old(b))),
    ensures
        fb_ops(*final(b)) == fb_ops(*old(b)).push(FbOp::EndTable(start)),
        r == fb_table_end(fb_ops(*old(b)), start),
        !fb_in_table(fb_ops(*final(b))),
        !fb_finished(fb_ops(*final(b))),
        fb_returned(fb_ops(*final(b)), r),
        forall|off: u32| fb_returned(fb_ops(*old(b)), off) ==> fb_returned(fb_ops(*final(b)), off),
{
    let r = fb_end_table(b, start);
    proof {
        lemma_end_table(fb_ops(*old(b)), start);
        lemma_not_finished_push(fb_ops(*old(b)), FbOp::EndTable(start));
        assert forall|off: u32| fb_returned(fb_ops(*old(b)), off) implies fb_returned(
            fb_ops(*b),
            off,
        ) by {
            lemma_returned_push(fb_ops(*old(b)), FbOp::EndTable(start), off);
        }
    }
    r
}

/// The calls `ops` followed by one that stores a string or a vector,
/// returning `off`: the table state is kept, and `off` joins the returned
/// offsets.
proof fn lemma_value_stored(ops: Seq<FbOp>, op: FbOp, off: u32)
    requires
        op is String || op is VecU64,
        op matches FbOp::String(s) ==> off == fb_string_offset(ops, s),
        op matches FbOp::VecU64(v) ==> off == fb_vector_offset(ops, v),
    ensures
        fb_in_table(ops.push(op)) == fb_in_table(ops),
        fb_returned(ops.push(op), off),
        !fb_finished(ops) ==> !fb_finished(ops.push(op)),
        forall|o: u32| fb_returned(ops, o) ==> fb_returned(ops.push(op), o),
{
    let n = ops.push(op);
    assert(n.drop_last() =~= ops);
    assert(n.take(ops.len() as int) =~= ops);
    assert(n[ops.len() as int] == op);
    if !fb_finished(ops) {
        lemma_not_finished_push(ops, op);
    }
    assert forall|o: u32| fb_returned(ops, o) implies fb_returned(n, o) by {
        lemma_returned_push(ops, op, o);
    }
}

/// Stores the string `s`, for a table to refer to, and returns its offset.
pub fn create_string(b: &mut FlatBufferBuilder<'static>, s: &str) -> (r: u32)
    requires
        fb_ready(fb_ops(*old(b)), 1),
        s@.len() < 0x40_0000,
    ensures
        fb_ops(*final(b)) == fb_ops(*old(b)).push(FbOp::String(s@)),
        r == fb_string_offset(fb_ops(*old(b)), s@),
        !fb_in_table(fb_ops(*final(b))),
        !fb_finished(fb_ops(*final(b))),
        fb_returned(fb_ops(*final(b)), r),
        forall|o: u32| fb_returned(fb_ops(*old(b)), o) ==> fb_returned(fb_ops(*final(b)), o),
{
    let r = fb_create_string(b, s);
    proof {
        lemma_value_stored(fb_ops(*old(b)), FbOp::String(s@), r);
    }
    r
}

/// Stores the numbers `items` as a vector, for a table to refer to, and
/// returns its offset.
pub fn create_vector_u64(b: &mut FlatBufferBuilder<'static>, items: &[u64]) -> (r: u32)
    requires
        fb_ready(fb_ops(*old(b)), 1),
        items@.len() < 0x40_0000,
    ensures
        fb_ops(*final(b)) == fb_ops(*old(b)).push(FbOp::VecU64(items@)),
        r == fb_vector_offset(fb_ops(*old(b)), items@),
        !fb_in_table(fb_ops(*final(b))),
        !fb_finished(fb_ops(*final(b))),
        fb_returned(fb_ops(*final(b)), r),
        forall|o: u32| fb_returned(fb_ops(*old(b)), o) ==> fb_returned(fb_ops(*final(b)), o),
{
    let r = fb_create_vector_u64(b, items);
    proof {
        lemma_value_stored(fb_ops(*old(b)), FbOp::VecU64(items@), r);
    }
    r
}

/// Writes a `StartRequest` table.
pub fn create_start_request(b: &mut FlatBufferBuilder<'static>, args: &StartRequestArgs) -> (r: u32)
    requires
        fb_ready(fb_ops(*old(b)), 4),
        args.token matches Some(x) ==> fb_returned(fb_ops(*old(b)), x),
    ensures
        fb_ops(*final(b)) == table_ops(fb_ops(*old(b)), start_request_fields(*args)),
        r == table_offset(fb_ops(*old(b)), start_request_fields(*args)),
        !fb_in_table(fb_ops(*final(b))),
        !fb_finished(fb_ops(*final(b))),
        fb_returned(fb_ops(*final(b)), r),
{
    let ghost ops0 = fb_ops(*b);
    let start = open_table(b);
    field_u64(b, 4, args.client_id);
    match args.token {
        Some(x) => field_offset(b, 6, x),
        None => {},
    }
    assert(fb_ops(*b) =~= ops0.push(FbOp::StartTable) + start_request_fields(*args));
    proof {
        lemma_table_slots(ops0, start_request_fields(*args));
    }
    close_table(b, start)
}

/// Writes a `StartResponse` table.
pub fn create_start_response(b: &mut FlatBufferBuilder<'static>, args: &StartResponseArgs) -> (r: u32)
    requires
        fb_ready(fb_ops(*old(b)), 4),
    ensures
        fb_ops(*final(b)) == table_ops(fb_ops(*old(b)), start_response_fields(*args)),
        r == table_offset(fb_ops(*old(b)), start_response_fields(*args)),
        !fb_in_table(fb_ops(*final(b))),
        !fb_finished(fb_ops(*final(b))),
        fb_returned(fb_ops(*final(b)), r),
{
    let ghost ops0 = fb_ops(*b);
    let start = open_table(b);
    field_u64(b, 4, args.client_ack);
    field_bool(b, 6, args.all_clients_ack);
    assert(fb_ops(*b) =~= ops0.push(FbOp::StartTable) + start_response_fields(*args));
    proof {
        lemma_table_slots(ops0, start_response_fields(*args));
    }
    close_table(b, start)
}

/// Writes a `LoadingRequest` table.
pub fn create_loading_request(b: &mut FlatBufferBuilder<'static>, args: &LoadingRequestArgs) -> (r: u32)
    requires
        fb_ready(fb_ops(*old(b)), 3),
    ensures
        fb_ops(*final(b)) == table_ops(fb_ops(*old(b)), percent_fields(args.percent)),
        r == table_offset(fb_ops(*old(b)), percent_fields(args.percent)),
        !fb_in_table(fb_ops(*final(b))),
        !fb_finished(fb_ops(*final(b))),
        fb_returned(fb_ops(*final(b)), r),
{
    let ghost ops0 = fb_ops(*b);
    let start = open_table(b);
    field_u16(b, 4, args.percent);
    assert(fb_ops(*b) =~= ops0.push(FbOp::StartTable) + percent_fields(args.percent));
    proof {
        lemma_table_slots(ops0, percent_fields(args.percent));
    }
    close_table(b, start)
}

/// Writes a `LoadingResponse` table.
pub fn create_loading_response(b: &mut FlatBufferBuilder<'static>, args: &LoadingResponseArgs) -> (r: u32)
    requires
        fb_ready(fb_ops(*old(b)), 3),
    ensures
        fb_ops(*final(b)) == table_ops(fb_ops(*old(b)), percent_fields(args.percent)),
        r == table_offset(fb_ops(*old(b)), percent_fields(args.percent)),
        !fb_in_table(fb_ops(*final(b))),
        !fb_finished(fb_ops(*final(b))),
        fb_returned(fb_ops(*final(b)), r),
{
    let ghost ops0 = fb_ops(*b);
    let start = open_table(b);
    field_u16(b, 4, args.percent);
    assert(fb_ops(*b) =~= ops0.push(FbOp::StartTable) + percent_fields(args.percent));
    proof {
        lemma_table_slots(ops0, percent_fields(args.percent));
    }
    close_table(b, start)
}

/// Writes a `GameStartRequest` table.
pub fn create_game_start_request(b: &mut FlatBufferBuilder<'static>, args: &GameStartRequestArgs) -> (r: u32)
    requires
        fb_ready(fb_ops(*old(b)), 3),
    ensures
        fb_ops(*final(b)) == table_ops(fb_ops(*old(b)), reserved_fields(args.reserved)),
        r == table_offset(fb_ops(*old(b)), reserved_fields(args.reserved)),
        !fb_in_table(fb_ops(*final(b))),
        !fb_finished(fb_ops(*final(b))),
        fb_returned(fb_ops(*final(b)), r),
{
    let ghost ops0 = fb_ops(*b);
    let start = open_table(b);
    field_u32(b, 4, args.reserved);
    assert(fb_ops(*b) =~= ops0.push(FbOp::StartTable) + reserved_fields(args.reserved));
    proof {
        lemma_table_slots(ops0, reserved_fields(args.reserved));
    }
    close_table(b, start)
}

/// Writes a `GameStartResponse` table.
pub fn create_game_start_response(b: &mut FlatBufferBuilder<'static>, args: &GameStartResponseArgs) -> (r: u32)
    requires
        fb_ready(fb_ops(*old(b)), 3),
    ensures
        fb_ops(*final(b)) == table_ops(fb_ops(*old(b)), reserved_fields(args.reserved)),
        r == table_offset(fb_ops(*old(b)), reserved_fields(args.reserved)),
        !fb_in_table(fb_ops(*final(b))),
        !fb_finished(fb_ops(*final(b))),
        fb_returned(fb_ops(*final(b)), r),
{
    let ghost ops0 = fb_ops(*b);
    let start = open_table(b);
    field_u32(b, 4, args.reserved);
    assert(fb_ops(*b) =~= ops0.push(FbOp::StartTable) + reserved_fields(args.reserved));
    proof {
        lemma_table_slots(ops0, reserved_fields(args.reserved));
    }
    close_table(b, start)
}

/// Writes a `NetPacket` table.
pub fn create_net_packet(b: &mut FlatBufferBuilder<'static>, args: &NetPacketArgs) -> (r: u32)
    requires
        fb_ready(fb_ops(*old(b)), 10),
        args.message matches Some(x) ==> fb_returned(fb_ops(*old(b)), x),
    ensures
        fb_ops(*final(b)) == table_ops(fb_ops(*old(b)), net_packet_fields(*args)),
        r == table_offset(fb_ops(*old(b)), net_packet_fields(*args)),
        !fb_in_table(fb_ops(*final(b))),
        !fb_finished(fb_ops(*final(b))),
        fb_returned(fb_ops(*final(b)), r),
{
    let ghost ops0 = fb_ops(*b);
    let start = open_table(b);
    field_u64(b, 12, args.id);
    field_u64(b, 10, args.timestamp);
    field_u64(b, 8, args.dest_client);
    field_u64(b, 6, args.source_client);
    field_u64(b, 4, args.tick);
    match args.message {
        Some(x) => field_offset(b, 16, x),
        None => {},
    }
    field_u8(b, 14, message_to_u8(args.message_type));
    assert(fb_ops(*b) =~= ops0.push(FbOp::StartTable) + net_packet_fields(*args));
    proof {
        lemma_table_slots(ops0, net_packet_fields(*args));
    }
    close_table(b, start)
}

} // verus!
