//! The part of the `flatbuffers` builder that the game packet encoder uses.
//!
//! A builder is described by the calls made on it since it was created, in
//! order: the bytes it finishes with, and the offsets its calls return, are
//! determined by that call sequence.
use flatbuffers::FlatBufferBuilder;
use vstd::prelude::*;

verus! {

#[verifier::external_type_specification]
#[verifier::external_body]
pub struct ExFlatBufferBuilder<'fbb>(FlatBufferBuilder<'fbb>);

/// One call made on a builder.
pub enum FbOp {
    /// `create_string` of the given text.
    String(Seq<char>),
    /// `create_vector` of the given numbers.
    VecU64(Seq<u64>),
    /// `start_table`.
    StartTable,
    /// `push_slot::<u64>(slot, value, default)`.
    U64(u16, u64, u64),
    /// `push_slot::<u32>(slot, value, default)`.
    U32(u16, u32, u32),
    /// `push_slot::<u16>(slot, value, default)`.
    U16(u16, u16, u16),
    /// `push_slot::<u8>(slot, value, default)`.
    U8(u16, u8, u8),
    /// `push_slot::<bool>(slot, value, default)`.
    Bool(u16, bool, bool),
    /// `push_slot_always(slot, WIPOffset::new(offset))`.
    Offset(u16, u32),
    /// `end_table` of the table started at the given offset.
    EndTable(u32),
    /// `finish(WIPOffset::new(root), None)`.
    Finish(u32),
}

/// The calls made on the builder since it was created, oldest first.
pub uninterp spec fn fb_ops(b: FlatBufferBuilder<'static>) -> Seq<FbOp>;

/// What `create_string` returns after the calls `ops`.
pub uninterp spec fn fb_string_offset(ops: Seq<FbOp>, s: Seq<char>) -> u32;

/// What `create_vector` returns after the calls `ops`, for a vector of `v`.
pub uninterp spec fn fb_vector_offset(ops: Seq<FbOp>, v: Seq<u64>) -> u32;

/// What `start_table` returns after the calls `ops`.
pub uninterp spec fn fb_table_start(ops: Seq<FbOp>) -> u32;

/// What `end_table` returns after the calls `ops`, for the table started at `start`.
pub uninterp spec fn fb_table_end(ops: Seq<FbOp>, start: u32) -> u32;

/// What `finished_data` holds after the calls `ops`.
pub uninterp spec fn fb_finished_bytes(ops: Seq<FbOp>) -> Seq<u8>;

/// A table is under construction after `ops`.
pub open spec fn fb_in_table(ops: Seq<FbOp>) -> bool
    decreases ops.len(),
{
    if ops.len() == 0 {
        false
    } else {
        match ops.last() {
            FbOp::StartTable => true,
            FbOp::EndTable(_) => false,
            _ => fb_in_table(ops.drop_last()),
        }
    }
}

/// The buffer was finished by one of `ops`.
pub open spec fn fb_finished(ops: Seq<FbOp>) -> bool {
    exists|k: int| 0 <= k < ops.len() && ops[k] is Finish
}

/// The offset that `start_table` returned for the table under construction.
pub open spec fn fb_open_table(ops: Seq<FbOp>) -> u32
    decreases ops.len(),
{
    if ops.len() == 0 {
        0
    } else {
        match ops.last() {
            FbOp::StartTable => fb_table_start(ops.drop_last()),
            _ => fb_open_table(ops.drop_last()),
        }
    }
}

/// `off` is an offset that one of `ops` returned: a string, a vector or a
/// finished table.
pub open spec fn fb_returned(ops: Seq<FbOp>, off: u32) -> bool {
    exists|k: int|
        0 <= k < ops.len() && (match #[trigger] ops[k] {
            FbOp::String(s) => off == fb_string_offset(ops.take(k), s),
            FbOp::VecU64(v) => off == fb_vector_offset(ops.take(k), v),
            FbOp::EndTable(start) => off == fb_table_end(ops.take(k), start),
            _ => false,
        })
}

/// The slot a field call writes, if the call writes one.
pub open spec fn field_slot(op: FbOp) -> Option<u16> {
    match op {
        FbOp::U64(s, _, _) => Some(s),
        FbOp::U32(s, _, _) => Some(s),
        FbOp::U16(s, _, _) => Some(s),
        FbOp::U8(s, _, _) => Some(s),
        FbOp::Bool(s, _, _) => Some(s),
        FbOp::Offset(s, _) => Some(s),
        _ => None,
    }
}

/// The slots written into the table opened last in `ops`, oldest first.
pub open spec fn fb_open_slots(ops: Seq<FbOp>) -> Seq<u16>
    decreases ops.len(),
{
    if ops.len() == 0 {
        Seq::<u16>::empty()
    } else if ops.last() is StartTable {
        Seq::<u16>::empty()
    } else {
        match field_slot(ops.last()) {
            Some(s) => fb_open_slots(ops.drop_last()).push(s),
            None => fb_open_slots(ops.drop_last()),
        }
    }
}

/// Slots a vtable can take: each even, at least 4 (past the vtable's
/// header) and written once.
pub open spec fn slots_ok(slots: Seq<u16>) -> bool {
    &&& forall|i: int| 0 <= i < slots.len() ==> #[trigger] slots[i] >= 4 && slots[i] % 2 == 0
    &&& forall|i: int, j: int| 0 <= i < j < slots.len() ==> #[trigger] slots[i] != #[trigger] slots[j]
}

/// The slots of the field calls `fields`.
pub open spec fn slots_of(fields: Seq<FbOp>) -> Seq<u16> {
    fields.map_values(|op: FbOp| field_slot(op)->0)
}

/// A table opened after `ops` and given the field calls `fields` holds
/// exactly their slots.
pub proof fn lemma_table_slots(ops: Seq<FbOp>, fields: Seq<FbOp>)
    requires
        forall|i: int| 0 <= i < fields.len() ==> #[trigger] field_slot(fields[i]) is Some,
    ensures
        fb_open_slots(ops.push(FbOp::StartTable) + fields) == slots_of(fields),
    decreases fields.len(),
{
    let all = ops.push(FbOp::StartTable) + fields;
    if fields.len() == 0 {
        assert(all =~= ops.push(FbOp::StartTable));
        assert(slots_of(fields) =~= Seq::<u16>::empty());
    } else {
        lemma_table_slots(ops, fields.drop_last());
        assert(all.drop_last() =~= ops.push(FbOp::StartTable) + fields.drop_last());
        assert(all.last() == fields.last());
        assert(field_slot(fields[fields.len() - 1]) is Some);
        assert(slots_of(fields) =~= slots_of(fields.drop_last()).push(field_slot(fields.last())->0));
    }
}

/// The builder stays far below its 2 GiB limit: few calls, short strings.
pub open spec fn fb_room(ops: Seq<FbOp>) -> bool {
    ops.len() < 64
}

/// `FlatBufferBuilder::new_with_capacity(1024)`: a builder with no calls made.
#[verifier::external_body]
pub(crate) fn fb_new() -> (b: FlatBufferBuilder<'static>)
    ensures
        fb_ops(b) == Seq::<FbOp>::empty(),
{
    FlatBufferBuilder::new_with_capacity(1024)
}

/// A builder with no calls made on it, ready for `Packet::to_flatbuffers`
/// or the table writers.
pub fn new_builder() -> (b: FlatBufferBuilder<'static>)
    ensures
        fb_ops(b) == Seq::<FbOp>::empty(),
{
    fb_new()
}

/// `create_string`: stores `s` and returns its offset. The builder checks (in
/// debug builds) that no table is under construction and that it is not
/// finished, and panics beyond 2 GiB.
#[verifier::external_body]
pub(crate) fn fb_create_string(b: &mut FlatBufferBuilder<'static>, s: &str) -> (r: u32)
    requires
        !fb_in_table(fb_ops(*old(b))),
        !fb_finished(fb_ops(*old(b))),
        fb_room(fb_ops(*old(b))),
        s@.len() < 0x40_0000,
    ensures
        fb_ops(*final(b)) == fb_ops(*old(b)).push(FbOp::String(s@)),
        r == fb_string_offset(fb_ops(*old(b)), s@),
{
    b.create_string(s).value()
}

/// `create_vector` of `u64` items: stores them as a vector and returns its
/// offset. It must not run while a table is under construction or after
/// the buffer is finished (the builder's data would interleave), and the
/// builder panics beyond 2 GiB.
#[verifier::external_body]
pub(crate) fn fb_create_vector_u64(b: &mut FlatBufferBuilder<'static>, items: &[u64]) -> (r: u32)
    requires
        !fb_in_table(fb_ops(*old(b))),
        !fb_finished(fb_ops(*old(b))),
        fb_room(fb_ops(*old(b))),
        items@.len() < 0x40_0000,
    ensures
        fb_ops(*final(b)) == fb_ops(*old(b)).push(FbOp::VecU64(items@)),
        r == fb_vector_offset(fb_ops(*old(b)), items@),
{
    b.create_vector(items).value()
}

/// `start_table`: opens a table and returns its start offset.
#[verifier::external_body]
pub(crate) fn fb_start_table(b: &mut FlatBufferBuilder<'static>) -> (r: u32)
    requires
        !fb_in_table(fb_ops(*old(b))),
        !fb_finished(fb_ops(*old(b))),
        fb_room(fb_ops(*old(b))),
    ensures
        fb_ops(*final(b)) == fb_ops(*old(b)).push(FbOp::StartTable),
        r == fb_table_start(fb_ops(*old(b))),
{
    b.start_table().value()
}

/// `push_slot::<u64>`: stores a field of the open table unless it equals its default.
#[verifier::external_body]
pub(crate) fn fb_push_u64(b: &mut FlatBufferBuilder<'static>, slot: u16, x: u64, default: u64)
    requires
        fb_in_table(fb_ops(*old(b))),
        fb_room(fb_ops(*old(b))),
    ensures
        fb_ops(*final(b)) == fb_ops(*old(b)).push(FbOp::U64(slot, x, default)),
{
    b.push_slot::<u64>(slot, x, default)
}

/// `push_slot::<u32>`: stores a field of the open table unless it equals its default.
#[verifier::external_body]
pub(crate) fn fb_push_u32(b: &mut FlatBufferBuilder<'static>, slot: u16, x: u32, default: u32)
    requires
        fb_in_table(fb_ops(*old(b))),
        fb_room(fb_ops(*old(b))),
    ensures
        fb_ops(*final(b)) == fb_ops(*old(b)).push(FbOp::U32(slot, x, default)),
{
    b.push_slot::<u32>(slot, x, default)
}

/// `push_slot::<u16>`: stores a field of the open table unless it equals its default.
#[verifier::external_body]
pub(crate) fn fb_push_u16(b: &mut FlatBufferBuilder<'static>, slot: u16, x: u16, default: u16)
    requires
        fb_in_table(fb_ops(*old(b))),
        fb_room(fb_ops(*old(b))),
    ensures
        fb_ops(*final(b)) == fb_ops(*old(b)).push(FbOp::U16(slot, x, default)),
{
    b.push_slot::<u16>(slot, x, default)
}

/// `push_slot::<u8>`: stores a field of the open table unless it equals its default.
#[verifier::external_body]
pub(crate) fn fb_push_u8(b: &mut FlatBufferBuilder<'static>, slot: u16, x: u8, default: u8)
    requires
        fb_in_table(fb_ops(*old(b))),
        fb_room(fb_ops(*old(b))),
    ensures
        fb_ops(*final(b)) == fb_ops(*old(b)).push(FbOp::U8(slot, x, default)),
{
    b.push_slot::<u8>(slot, x, default)
}

/// `push_slot::<bool>`: stores a field of the open table unless it equals its default.
#[verifier::external_body]
pub(crate) fn fb_push_bool(b: &mut FlatBufferBuilder<'static>, slot: u16, x: bool, default: bool)
    requires
        fb_in_table(fb_ops(*old(b))),
        fb_room(fb_ops(*old(b))),
    ensures
        fb_ops(*final(b)) == fb_ops(*old(b)).push(FbOp::Bool(slot, x, default)),
{
    b.push_slot::<bool>(slot, x, default)
}

/// `push_slot_always` of an offset that an earlier call returned: stores a
/// reference to a string or table in the open table.
#[verifier::external_body]
pub(crate) fn fb_push_offset(b: &mut FlatBufferBuilder<'static>, slot: u16, off: u32)
    requires
        fb_in_table(fb_ops(*old(b))),
        fb_room(fb_ops(*old(b))),
        fb_returned(fb_ops(*old(b)), off),
    ensures
        fb_ops(*final(b)) == fb_ops(*old(b)).push(FbOp::Offset(slot, off)),
{
    b.push_slot_always::<flatbuffers::WIPOffset<flatbuffers::UnionWIPOffset>>(
        slot,
        flatbuffers::WIPOffset::new(off),
    )
}

/// `end_table` of the open table, started at `start`: writes its vtable and
/// returns the table's offset. The builder checks (in debug builds) that no
/// slot of the table was written twice; the slots below 4 belong to the
/// vtable's header.
#[verifier::external_body]
pub(crate) fn fb_end_table(b: &mut FlatBufferBuilder<'static>, start: u32) -> (r: u32)
    requires
        fb_in_table(fb_ops(*old(b))),
        fb_room(fb_ops(*old(b))),
        start == fb_open_table(fb_ops(*old(b))),
        slots_ok(fb_open_slots(fb_ops(*old(b)))),
    ensures
        fb_ops(*final(b)) == fb_ops(*old(b)).push(FbOp::EndTable(start)),
        r == fb_table_end(fb_ops(*old(b)), start),
{
    b.end_table(flatbuffers::WIPOffset::new(start)).value()
}

/// `finish(root, None)`: writes the root offset and closes the buffer.
#[verifier::external_body]
pub(crate) fn fb_finish(b: &mut FlatBufferBuilder<'static>, root: u32)
    requires
        !fb_in_table(fb_ops(*old(b))),
        !fb_finished(fb_ops(*old(b))),
        fb_room(fb_ops(*old(b))),
        fb_returned(fb_ops(*old(b)), root),
    ensures
        fb_ops(*final(b)) == fb_ops(*old(b)).push(FbOp::Finish(root)),
{
    b.finish(flatbuffers::WIPOffset::<flatbuffers::TableFinishedWIPOffset>::new(root), None)
}

/// `finished_data`: the bytes of the finished buffer.
#[verifier::external_body]
pub(crate) fn fb_finished_data(b: &FlatBufferBuilder<'static>) -> (r: Vec<u8>)
    requires
        fb_finished(fb_ops(*b)),
    ensures
        r@ == fb_finished_bytes(fb_ops(*b)),
{
    b.finished_data().to_vec()
}

} // verus!
