//! The version 1 control message: a FlatBuffers table with one field.

use flatbuffers::FlatBufferBuilder;
use vstd::prelude::*;

use crate::wire::frame;

verus! {

/// Offset of the field in the vtable.
pub const VT_KIND: u16 = 4;

/// What a control message asks for.
#[derive(Debug, Clone, Copy, PartialEq, Eq, Structural)]
pub enum ControlKind {
    Connect,
    Disconnect,
    Ping,
}

/// The wire value of a kind.
pub open spec fn kind_byte(kind: ControlKind) -> u8 {
    match kind {
        ControlKind::Connect => 0,
        ControlKind::Disconnect => 1,
        ControlKind::Ping => 2,
    }
}

impl ControlKind {
    /// The wire value of this kind.
    pub fn to_u8(self) -> (b: u8)
        ensures
            b == kind_byte(self),
    {
        match self {
            ControlKind::Connect => 0,
            ControlKind::Disconnect => 1,
            ControlKind::Ping => 2,
        }
    }
}

/// Whether a buffer holds a table whose kind field reads as `kind`.
pub open spec fn holds_kind(d: Seq<u8>, kind: u8) -> bool {
    frame::root_table(d) matches Some(t) && frame::field8(d, t, VT_KIND as int) == Some(kind)
}

/// The bytes that the `flatbuffers` builder makes of a control message.
pub uninterp spec fn built_control(kind: u8) -> Seq<u8>;

/// `flatbuffers::FlatBufferBuilder`: builds a table with one 8-bit field, which
/// `push_slot` leaves out where it is 0, and finishes the buffer with it as
/// the root. Claimed: the bytes are a function of the argument, and read by
/// the FlatBuffers table layout they give the field back.
#[verifier::external_body]
fn build_control(kind: u8) -> (buf: Vec<u8>)
    ensures
        buf@ == built_control(kind),
        holds_kind(buf@, kind),
{
    let mut builder = FlatBufferBuilder::with_capacity(32);
    let start = builder.start_table();
    builder.push_slot::<u8>(VT_KIND, kind, 0);
    let root = builder.end_table(start);
    builder.finish(root, None);
    builder.finished_data().to_vec()
}

/// Serializes a control message.
pub fn serialize_control_msg(kind: ControlKind) -> (buf: Vec<u8>)
    ensures
        buf@ == built_control(kind_byte(kind)),
        holds_kind(buf@, kind_byte(kind)),
{
    build_control(kind.to_u8())
}

/// Distinct kinds are told apart by the receiver.
pub proof fn kinds_are_told_apart(d: Seq<u8>, a: ControlKind, b: ControlKind)
    requires
        holds_kind(d, kind_byte(a)),
        holds_kind(d, kind_byte(b)),
    ensures
        a == b,
{
}

} // verus!
