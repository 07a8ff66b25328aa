//! Plain definitions shared by the whole crate: the message header, the
//! instruction a handler hands back, and the ways in which dispatch fails.

use vstd::prelude::*;

use crate::object::ObjectId;

verus! {

/// Fixed metadata that precedes the payload of every message.
///
/// Only `target` takes part in routing. The operation selector and the payload
/// length reach the handler as they came.
#[derive(Clone, Copy, PartialEq, Eq, Debug, Structural)]
pub struct Header {
    /// Object the message is addressed to.
    pub target: ObjectId,
    /// Operation requested of the target.
    pub opcode: u16,
    /// Number of payload bytes that follow the header.
    pub length: u16,
}

/// What the owner of a connection has to do once a handler has run.
#[derive(Clone, Copy, PartialEq, Eq, Debug, Structural)]
pub enum Task {
    /// Nothing: carry on with the next message.
    Continue,
    /// The named object is gone and its identifier is free again.
    Destroy { id: ObjectId },
    /// Close the connection.
    Terminate,
}

/// Ways in which registering an object or routing a message fails.
#[derive(Clone, Copy, PartialEq, Eq, Debug, Structural)]
pub enum SkylaneError {
    /// A header names the null identifier.
    InvalidTarget,
    /// An identifier is not bound to any object.
    UnknownObject { object_id: ObjectId },
    /// An identifier is null or already bound, so nothing can be registered under it.
    DuplicateBinding { object_id: ObjectId },
    /// A handler could not decode its arguments from the payload.
    MalformedPayload,
    /// The source of bytes and descriptors did not deliver the message as announced.
    Transport,
}

} // verus!
