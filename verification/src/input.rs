//! The FlatBuffers tables of the player inputs that the game sends.
use flatbuffers::FlatBufferBuilder;
use vstd::prelude::*;

use crate::flatbuf::{fb_in_table, fb_finished, fb_ops, fb_returned, lemma_table_slots, FbOp};
use crate::network::{
    close_table, fb_ready, field_offset, field_u32, open_table, optional_offset, table_offset,
    table_ops,
};

verus! {

/// Marks the offset of an input union value.
pub struct InputTypeUnionTableOffset;

/// Marks the offset of a `CommandInputA` table.
pub struct CommandInputAOffset;

/// Marks the offset of a `CommandInput` table.
pub struct CommandInputOffset;

/// Marks the offset of a `SelectActionObjects` table.
pub struct SelectActionObjectsOffset;

/// Marks the offset of a `SelectAction` table.
pub struct SelectActionOffset;

/// Marks the offset of an `ObjectMove` table.
pub struct ObjectMoveOffset;

/// Marks the offset of a `CameraMove` table.
pub struct CameraMoveOffset;

/// Marks the offset of a `CameraRotate` table.
pub struct CameraRotateOffset;

/// Marks the offset of a `CreateEntity` table.
pub struct CreateEntityOffset;

/// The fields of an `ObjectMove` table: where the selected objects move.
pub struct ObjectMoveArgs {
    pub x_pos: u32,
    pub y_pos: u32,
}

impl Default for ObjectMoveArgs {
    /// Both coordinates zero, the table's defaults.
    fn default() -> (r: ObjectMoveArgs)
        ensures
            r.x_pos == 0,
            r.y_pos == 0,
    {
        ObjectMoveArgs { x_pos: 0, y_pos: 0 }
    }
}

/// The field calls of an `ObjectMove` table: the y position in slot 6, then
/// the x position in slot 4, each left out when zero.
pub open spec fn object_move_fields(a: ObjectMoveArgs) -> Seq<FbOp> {
    seq![FbOp::U32(6, a.y_pos, 0), FbOp::U32(4, a.x_pos, 0)]
}

/// Writes an `ObjectMove` table.
pub fn create_object_move(b: &mut FlatBufferBuilder<'static>, args: &ObjectMoveArgs) -> (r: u32)
    requires
        fb_ready(fb_ops(*old(b)), 4),
    ensures
        fb_ops(*final(b)) == table_ops(fb_ops(*old(b)), object_move_fields(*args)),
        r == table_offset(fb_ops(*old(b)), object_move_fields(*args)),
        !fb_in_table(fb_ops(*final(b))),
        !fb_finished(fb_ops(*final(b))),
        fb_returned(fb_ops(*final(b)), r),
{
    let ghost ops0 = fb_ops(*b);
    let start = open_table(b);
    field_u32(b, 6, args.y_pos);
    field_u32(b, 4, args.x_pos);
    assert(fb_ops(*b) =~= ops0.push(FbOp::StartTable) + object_move_fields(*args));
    proof {
        lemma_table_slots(ops0, object_move_fields(*args));
    }
    close_table(b, start)
}

/// The fields of a `CommandInputA` table: the vector of command arguments.
pub struct CommandInputAArgs {
    /// The offset of the vector of arguments, if any.
    pub args: Option<u32>,
}

impl Default for CommandInputAArgs {
    /// Every field absent.
    fn default() -> (r: CommandInputAArgs)
        ensures
            r.args is None,
    {
        CommandInputAArgs { args: None }
    }
}

/// The field calls of a `CommandInputA` table, in the order they are written.
pub open spec fn command_input_a_fields(a: CommandInputAArgs) -> Seq<FbOp> {
    optional_offset(4, a.args)
}

/// Writes a `CommandInputA` table.
pub fn create_command_input_a(b: &mut FlatBufferBuilder<'static>, args: &CommandInputAArgs) -> (r: u32)
    requires
        fb_ready(fb_ops(*old(b)), 4),
        args.args matches Some(x) ==> fb_returned(fb_ops(*old(b)), x),
    ensures
        fb_ops(*final(b)) == table_ops(fb_ops(*old(b)), command_input_a_fields(*args)),
        r == table_offset(fb_ops(*old(b)), command_input_a_fields(*args)),
        !fb_in_table(fb_ops(*final(b))),
        !fb_finished(fb_ops(*final(b))),
        fb_returned(fb_ops(*final(b)), r),
        forall|o: u32| fb_returned(fb_ops(*old(b)), o) ==> fb_returned(fb_ops(*final(b)), o),
{
    let ghost ops0 = fb_ops(*b);
    let start = open_table(b);
    match args.args {
        Some(x) => field_offset(b, 4, x),
        None => {},
    }
    assert(fb_ops(*b) =~= ops0.push(FbOp::StartTable) + command_input_a_fields(*args));
    proof {
        lemma_table_slots(ops0, command_input_a_fields(*args));
    }
    close_table(b, start)
}

/// The fields of a `CommandInput` table: the command name and its arguments table.
pub struct CommandInputArgs {
    /// The offset of the command string; the table requires it.
    pub command: Option<u32>,
    /// The offset of the `CommandInputA` table, if any.
    pub args: Option<u32>,
}

impl Default for CommandInputArgs {
    /// Every field absent.
    fn default() -> (r: CommandInputArgs)
        ensures
            r.command is None,
            r.args is None,
    {
        CommandInputArgs { command: None, args: None }
    }
}

/// The field calls of a `CommandInput` table, in the order they are written.
pub open spec fn command_input_fields(a: CommandInputArgs) -> Seq<FbOp> {
    optional_offset(6, a.args) + optional_offset(4, a.command)
}

/// Writes a `CommandInput` table. The builder panics when the required `command` is missing.
pub fn create_command_input(b: &mut FlatBufferBuilder<'static>, args: &CommandInputArgs) -> (r: u32)
    requires
        fb_ready(fb_ops(*old(b)), 4),
        args.command is Some,
        args.command matches Some(x) ==> fb_returned(fb_ops(*old(b)), x),
        args.args matches Some(x) ==> fb_returned(fb_ops(*old(b)), x),
    ensures
        fb_ops(*final(b)) == table_ops(fb_ops(*old(b)), command_input_fields(*args)),
        r == table_offset(fb_ops(*old(b)), command_input_fields(*args)),
        !fb_in_table(fb_ops(*final(b))),
        !fb_finished(fb_ops(*final(b))),
        fb_returned(fb_ops(*final(b)), r),
        forall|o: u32| fb_returned(fb_ops(*old(b)), o) ==> fb_returned(fb_ops(*final(b)), o),
{
    let ghost ops0 = fb_ops(*b);
    let start = open_table(b);
    match args.args {
        Some(x) => field_offset(b, 6, x),
        None => {},
    }
    match args.command {
        Some(x) => field_offset(b, 4, x),
        None => {},
    }
    assert(fb_ops(*b) =~= ops0.push(FbOp::StartTable) + command_input_fields(*args));
    proof {
        lemma_table_slots(ops0, command_input_fields(*args));
    }
    close_table(b, start)
}

/// The fields of a `SelectActionObjects` table: the vector of selected object ids.
pub struct SelectActionObjectsArgs {
    /// The offset of the vector of ids; the table requires it.
    pub values: Option<u32>,
}

impl Default for SelectActionObjectsArgs {
    /// Every field absent.
    fn default() -> (r: SelectActionObjectsArgs)
        ensures
            r.values is None,
    {
        SelectActionObjectsArgs { values: None }
    }
}

/// The field calls of a `SelectActionObjects` table, in the order they are written.
pub open spec fn select_action_objects_fields(a: SelectActionObjectsArgs) -> Seq<FbOp> {
    optional_offset(4, a.values)
}

/// Writes a `SelectActionObjects` table. The builder panics when the required `values` is missing.
pub fn create_select_action_objects(b: &mut FlatBufferBuilder<'static>, args: &SelectActionObjectsArgs) -> (r: u32)
    requires
        fb_ready(fb_ops(*old(b)), 4),
        args.values is Some,
        args.values matches Some(x) ==> fb_returned(fb_ops(*old(b)), x),
    ensures
        fb_ops(*final(b)) == table_ops(fb_ops(*old(b)), select_action_objects_fields(*args)),
        r == table_offset(fb_ops(*old(b)), select_action_objects_fields(*args)),
        !fb_in_table(fb_ops(*final(b))),
        !fb_finished(fb_ops(*final(b))),
        fb_returned(fb_ops(*final(b)), r),
        forall|o: u32| fb_returned(fb_ops(*old(b)), o) ==> fb_returned(fb_ops(*final(b)), o),
{
    let ghost ops0 = fb_ops(*b);
    let start = open_table(b);
    match args.values {
        Some(x) => field_offset(b, 4, x),
        None => {},
    }
    assert(fb_ops(*b) =~= ops0.push(FbOp::StartTable) + select_action_objects_fields(*args));
    proof {
        lemma_table_slots(ops0, select_action_objects_fields(*args));
    }
    close_table(b, start)
}

/// The fields of a `SelectAction` table: its objects table.
pub struct SelectActionArgs {
    /// The offset of the `SelectActionObjects` table; the table requires it.
    pub objects: Option<u32>,
}

impl Default for SelectActionArgs {
    /// Every field absent.
    fn default() -> (r: SelectActionArgs)
        ensures
            r.objects is None,
    {
        SelectActionArgs { objects: None }
    }
}

/// The field calls of a `SelectAction` table, in the order they are written.
pub open spec fn select_action_fields(a: SelectActionArgs) -> Seq<FbOp> {
    optional_offset(4, a.objects)
}

/// Writes a `SelectAction` table. The builder panics when the required `objects` is missing.
pub fn create_select_action(b: &mut FlatBufferBuilder<'static>, args: &SelectActionArgs) -> (r: u32)
    requires
        fb_ready(fb_ops(*old(b)), 4),
        args.objects is Some,
        args.objects matches Some(x) ==> fb_returned(fb_ops(*old(b)), x),
    ensures
        fb_ops(*final(b)) == table_ops(fb_ops(*old(b)), select_action_fields(*args)),
        r == table_offset(fb_ops(*old(b)), select_action_fields(*args)),
        !fb_in_table(fb_ops(*final(b))),
        !fb_finished(fb_ops(*final(b))),
        fb_returned(fb_ops(*final(b)), r),
        forall|o: u32| fb_returned(fb_ops(*old(b)), o) ==> fb_returned(fb_ops(*final(b)), o),
{
    let ghost ops0 = fb_ops(*b);
    let start = open_table(b);
    match args.objects {
        Some(x) => field_offset(b, 4, x),
        None => {},
    }
    assert(fb_ops(*b) =~= ops0.push(FbOp::StartTable) + select_action_fields(*args));
    proof {
        lemma_table_slots(ops0, select_action_fields(*args));
    }
    close_table(b, start)
}

} // verus!
