//! An in-process actor runtime: actors own private state and a mailbox, talk only by
//! messages, notify linked actors when they exit, and can be found by name through a
//! registry actor.

pub mod actor;
pub mod address;
pub mod message;
pub mod registry;

pub use actor::{Action, Actor, ActorProcess, Envelope, Matcher, Stateless, Step};
pub use address::ActorAddress;
pub use message::{Message, MessageBuilder, MessageDatum, MessageType};
pub use registry::{located, register_message, registered, registry_actor, where_is_message, RegistryState};
