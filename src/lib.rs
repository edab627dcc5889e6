//! Live collaborative snippet rooms: the message protocol, the per-connection
//! session state machine, the room registry and the rules for slugs and
//! persisted image lists.
pub mod hub;
pub mod image;
pub mod protocol;
pub mod session;
pub mod slug;
pub mod snippet;
