//! Object identity and message dispatch for an object-addressed wire protocol.
//!
//! A connection keeps one [`router::Router`]. Each incoming message names a
//! target object by its [`object::ObjectId`]; the router finds the object bound
//! to that identifier, hands it the payload through bounded cursors, and turns
//! what the handler returned into a change of the registry and an instruction
//! for the owner of the connection.

pub mod bundle;
pub mod cursor;
pub mod defs;
pub mod object;
pub mod registry;
pub mod router;
