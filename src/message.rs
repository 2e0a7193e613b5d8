//! Messages: a kind, the sender's address and a datum, built and sent with a builder.

use std::collections::HashMap;
use vstd::prelude::*;

use crate::address::ActorAddress;

verus! {

/// What a message means. `Link`, `Shutdown` and `Custom` can be built by anyone; the
/// other kinds only by the runtime and the registry.
#[derive(Clone, Copy, PartialEq, Eq, PartialOrd, Ord, Debug)]
pub enum MessageType {
    /// The first message every actor is handed.
    Init,
    /// The sender has exited: with a `Void` datum normally, with a `Str` datum after a
    /// failing action, the string being the reason.
    Exited,
    /// The receiver is to notify the sender when it exits.
    Link,
    /// The receiver is to stop, after the messages queued before this one.
    Shutdown,
    /// A request to the registry to bind a name to an actor.
    Register,
    /// The registry's answer to `Register`.
    RegisterResponse,
    /// A request to the registry for the actor bound to a name.
    WhereIs,
    /// The registry's answer to `WhereIs`.
    WhereIsResponse,
    /// A user-defined message, told apart by its tag.
    Custom(&'static str),
}

/// The data a message carries.
#[derive(Debug)]
pub enum MessageDatum {
    Void,
    I64(i64),
    U64(u64),
    /// A 64-bit float, kept as its IEEE 754 bit pattern.
    F64(u64),
    Str(String),
    Dict(HashMap<String, MessageDatum>),
    Act(ActorAddress),
}

impl MessageDatum {
    /// `self` is a copy of `other`: maps hold the same entries, anything else is equal.
    pub open spec fn copies(&self, other: MessageDatum) -> bool {
        match (*self, other) {
            (MessageDatum::Dict(a), MessageDatum::Dict(b)) => a@ == b@,
            _ => *self == other,
        }
    }

    /// The signed integer held, if any.
    pub fn as_i64(&self) -> (r: Option<i64>)
        ensures
            r == (match *self {
                MessageDatum::I64(x) => Some(x),
                _ => None,
            }),
    {
        match self {
            MessageDatum::I64(x) => Some(*x),
            _ => None,
        }
    }

    /// The unsigned integer held, if any.
    pub fn as_u64(&self) -> (r: Option<u64>)
        ensures
            r == (match *self {
                MessageDatum::U64(x) => Some(x),
                _ => None,
            }),
    {
        match self {
            MessageDatum::U64(x) => Some(*x),
            _ => None,
        }
    }

    /// The bit pattern of the float held, if any.
    pub fn as_f64_bits(&self) -> (r: Option<u64>)
        ensures
            r == (match *self {
                MessageDatum::F64(x) => Some(x),
                _ => None,
            }),
    {
        match self {
            MessageDatum::F64(x) => Some(*x),
            _ => None,
        }
    }

    /// A copy of the string held, if any.
    pub fn as_str(&self) -> (r: Option<String>)
        ensures
            match *self {
                MessageDatum::Str(s) => r == Some(s),
                _ => r is None,
            },
    {
        match self {
            MessageDatum::Str(s) => Some(s.clone()),
            _ => None,
        }
    }

    /// A copy of the map held, if any.
    pub fn as_map(&self) -> (r: Option<HashMap<String, MessageDatum>>)
        ensures
            match *self {
                MessageDatum::Dict(m) => r is Some && r.unwrap()@ == m@,
                _ => r is None,
            },
    {
        match self {
            MessageDatum::Dict(m) => Some(copy_dict(m)),
            _ => None,
        }
    }

    /// A copy of the address held, if any.
    pub fn as_act(&self) -> (r: Option<ActorAddress>)
        ensures
            match *self {
                MessageDatum::Act(a) => r == Some(a),
                _ => r is None,
            },
    {
        match self {
            MessageDatum::Act(a) => Some(a.clone()),
            _ => None,
        }
    }
}

impl Clone for MessageDatum {
    fn clone(&self) -> (r: Self)
        ensures
            r.copies(*self),
    {
        match self {
            MessageDatum::Void => MessageDatum::Void,
            MessageDatum::I64(x) => MessageDatum::I64(*x),
            MessageDatum::U64(x) => MessageDatum::U64(*x),
            MessageDatum::F64(x) => MessageDatum::F64(*x),
            MessageDatum::Str(s) => MessageDatum::Str(s.clone()),
            MessageDatum::Dict(m) => MessageDatum::Dict(copy_dict(m)),
            MessageDatum::Act(a) => MessageDatum::Act(a.clone()),
        }
    }
}

/// Relies on `HashMap::clone`: the copy holds the same entries, each value cloned (the
/// statement vstd gives for `HashMap::clone`).
#[verifier::external_body]
fn copy_dict(m: &HashMap<String, MessageDatum>) -> (r: HashMap<String, MessageDatum>)
    ensures
        r@ == m@,
{
    m.clone()
}

impl From<i64> for MessageDatum {
    fn from(x: i64) -> (r: MessageDatum) {
        MessageDatum::I64(x)
    }
}

impl vstd::std_specs::convert::FromSpecImpl<i64> for MessageDatum {
    open spec fn obeys_from_spec() -> bool {
        true
    }

    open spec fn from_spec(x: i64) -> MessageDatum {
        MessageDatum::I64(x)
    }
}

impl From<u64> for MessageDatum {
    fn from(x: u64) -> (r: MessageDatum) {
        MessageDatum::U64(x)
    }
}

impl vstd::std_specs::convert::FromSpecImpl<u64> for MessageDatum {
    open spec fn obeys_from_spec() -> bool {
        true
    }

    open spec fn from_spec(x: u64) -> MessageDatum {
        MessageDatum::U64(x)
    }
}

impl From<String> for MessageDatum {
    fn from(x: String) -> (r: MessageDatum) {
        MessageDatum::Str(x)
    }
}

impl vstd::std_specs::convert::FromSpecImpl<String> for MessageDatum {
    open spec fn obeys_from_spec() -> bool {
        true
    }

    open spec fn from_spec(x: String) -> MessageDatum {
        MessageDatum::Str(x)
    }
}

impl From<HashMap<String, MessageDatum>> for MessageDatum {
    fn from(x: HashMap<String, MessageDatum>) -> (r: MessageDatum) {
        MessageDatum::Dict(x)
    }
}

impl vstd::std_specs::convert::FromSpecImpl<HashMap<String, MessageDatum>> for MessageDatum {
    open spec fn obeys_from_spec() -> bool {
        true
    }

    open spec fn from_spec(x: HashMap<String, MessageDatum>) -> MessageDatum {
        MessageDatum::Dict(x)
    }
}

impl From<ActorAddress> for MessageDatum {
    fn from(x: ActorAddress) -> (r: MessageDatum) {
        MessageDatum::Act(x)
    }
}

impl vstd::std_specs::convert::FromSpecImpl<ActorAddress> for MessageDatum {
    open spec fn obeys_from_spec() -> bool {
        true
    }

    open spec fn from_spec(x: ActorAddress) -> MessageDatum {
        MessageDatum::Act(x)
    }
}

impl<'a> From<&'a str> for MessageDatum {
    fn from(x: &'a str) -> (r: MessageDatum)
        ensures
            r is Str,
            r->Str_0@ == x@,
    {
        MessageDatum::Str(x.to_owned())
    }
}

impl<'a> vstd::std_specs::convert::FromSpecImpl<&'a str> for MessageDatum {
    open spec fn obeys_from_spec() -> bool {
        false
    }

    open spec fn from_spec(x: &'a str) -> MessageDatum {
        choose|d: MessageDatum| d is Str && d->Str_0@ == x@
    }
}

impl<'a> From<&'a ActorAddress> for MessageDatum {
    fn from(x: &'a ActorAddress) -> (r: MessageDatum) {
        MessageDatum::Act(x.clone())
    }
}

impl<'a> vstd::std_specs::convert::FromSpecImpl<&'a ActorAddress> for MessageDatum {
    open spec fn obeys_from_spec() -> bool {
        true
    }

    open spec fn from_spec(x: &'a ActorAddress) -> MessageDatum {
        MessageDatum::Act(*x)
    }
}

/// A message: its kind, the address of its sender and a datum.
#[derive(Debug)]
pub struct Message {
    mt: MessageType,
    sender: ActorAddress,
    datum: MessageDatum,
}

/// Builds a message: kind first, then sender and datum, then `build` or `send_to`.
pub struct MessageBuilder {
    mt: MessageType,
    sender: Option<ActorAddress>,
    datum: Option<MessageDatum>,
}

impl Message {
    pub closed spec fn kind(&self) -> MessageType {
        self.mt
    }

    pub closed spec fn origin(&self) -> ActorAddress {
        self.sender
    }

    pub closed spec fn payload(&self) -> MessageDatum {
        self.datum
    }

    /// A message made of the given parts; only the runtime builds messages this way.
    pub(crate) fn compose(mt: MessageType, sender: ActorAddress, datum: MessageDatum) -> (r: Message)
        ensures
            r.kind() == mt,
            r.origin() == sender,
            r.payload() == datum,
    {
        Message { mt, sender, datum }
    }

    /// The kind of the message.
    pub fn get_type(&self) -> (r: &MessageType)
        ensures
            *r == self.kind(),
    {
        &self.mt
    }

    /// The sender of the message.
    pub fn get_sender(&self) -> (r: &ActorAddress)
        ensures
            *r == self.origin(),
    {
        &self.sender
    }

    /// The datum of the message.
    pub fn get_datum(&self) -> (r: &MessageDatum)
        ensures
            *r == self.payload(),
    {
        &self.datum
    }

    /// Starts a `Link` message.
    pub fn link() -> (r: MessageBuilder)
        ensures
            r.kind() == MessageType::Link,
            r.chosen_sender() is None,
            r.chosen_datum() is None,
    {
        MessageBuilder::start(MessageType::Link)
    }

    /// Starts a `Shutdown` message.
    pub fn shutdown() -> (r: MessageBuilder)
        ensures
            r.kind() == MessageType::Shutdown,
            r.chosen_sender() is None,
            r.chosen_datum() is None,
    {
        MessageBuilder::start(MessageType::Shutdown)
    }

    /// Starts a `Custom` message with the given tag.
    pub fn custom(mt: &'static str) -> (r: MessageBuilder)
        ensures
            r.kind() == MessageType::Custom(mt),
            r.chosen_sender() is None,
            r.chosen_datum() is None,
    {
        MessageBuilder::start(MessageType::Custom(mt))
    }

    /// Starts a message of a kind that only the runtime may send.
    pub(crate) fn system(mt: MessageType) -> (r: MessageBuilder)
        ensures
            r.kind() == mt,
            r.chosen_sender() is None,
            r.chosen_datum() is None,
    {
        MessageBuilder::start(mt)
    }
}

impl Clone for Message {
    fn clone(&self) -> (r: Self)
        ensures
            r.kind() == self.kind(),
            r.origin() == self.origin(),
            r.payload().copies(self.payload()),
    {
        Message { mt: self.mt, sender: self.sender.clone(), datum: self.datum.clone() }
    }
}

impl MessageBuilder {
    pub closed spec fn kind(&self) -> MessageType {
        self.mt
    }

    pub closed spec fn chosen_sender(&self) -> Option<ActorAddress> {
        self.sender
    }

    pub closed spec fn chosen_datum(&self) -> Option<MessageDatum> {
        self.datum
    }

    fn start(mt: MessageType) -> (r: MessageBuilder)
        ensures
            r.kind() == mt,
            r.chosen_sender() is None,
            r.chosen_datum() is None,
    {
        MessageBuilder { mt, sender: None, datum: None }
    }

    /// Sets the sender.
    pub fn with_sender<'a>(&'a mut self, f: &ActorAddress) -> (r: &'a mut MessageBuilder)
        ensures
            r.kind() == old(self).kind(),
            r.chosen_sender() == Some(*f),
            r.chosen_datum() == old(self).chosen_datum(),
            *final(self) == *final(r),
    {
        self.sender = Some(f.clone());
        self
    }

    /// Sets the datum.
    pub fn with_datum<'a>(&'a mut self, d: MessageDatum) -> (r: &'a mut MessageBuilder)
        ensures
            r.kind() == old(self).kind(),
            r.chosen_sender() == old(self).chosen_sender(),
            r.chosen_datum() == Some(d),
            *final(self) == *final(r),
    {
        self.datum = Some(d);
        self
    }

    /// Sets a signed integer as the datum.
    pub fn with_i64<'a>(&'a mut self, i: i64) -> (r: &'a mut MessageBuilder)
        ensures
            r.kind() == old(self).kind(),
            r.chosen_sender() == old(self).chosen_sender(),
            r.chosen_datum() == Some(MessageDatum::I64(i)),
            *final(self) == *final(r),
    {
        self.with_datum(MessageDatum::I64(i))
    }

    /// Sets an unsigned integer as the datum.
    pub fn with_u64<'a>(&'a mut self, u: u64) -> (r: &'a mut MessageBuilder)
        ensures
            r.kind() == old(self).kind(),
            r.chosen_sender() == old(self).chosen_sender(),
            r.chosen_datum() == Some(MessageDatum::U64(u)),
            *final(self) == *final(r),
    {
        self.with_datum(MessageDatum::U64(u))
    }

    /// Sets a float, given by its IEEE 754 bit pattern, as the datum.
    pub fn with_f64_bits<'a>(&'a mut self, bits: u64) -> (r: &'a mut MessageBuilder)
        ensures
            r.kind() == old(self).kind(),
            r.chosen_sender() == old(self).chosen_sender(),
            r.chosen_datum() == Some(MessageDatum::F64(bits)),
            *final(self) == *final(r),
    {
        self.with_datum(MessageDatum::F64(bits))
    }

    /// Sets a copy of the string as the datum.
    pub fn with_str<'a>(&'a mut self, s: &str) -> (r: &'a mut MessageBuilder)
        ensures
            r.kind() == old(self).kind(),
            r.chosen_sender() == old(self).chosen_sender(),
            r.chosen_datum() is Some,
            r.chosen_datum().unwrap() is Str,
            r.chosen_datum().unwrap()->Str_0@ == s@,
            *final(self) == *final(r),
    {
        self.with_datum(MessageDatum::Str(s.to_owned()))
    }

    /// Sets a map as the datum.
    pub fn with_map<'a>(&'a mut self, m: HashMap<String, MessageDatum>) -> (r: &'a mut MessageBuilder)
        ensures
            r.kind() == old(self).kind(),
            r.chosen_sender() == old(self).chosen_sender(),
            r.chosen_datum() == Some(MessageDatum::Dict(m)),
            *final(self) == *final(r),
    {
        self.with_datum(MessageDatum::Dict(m))
    }

    /// Sets a copy of the address as the datum.
    pub fn with_act<'a>(&'a mut self, a: &ActorAddress) -> (r: &'a mut MessageBuilder)
        ensures
            r.kind() == old(self).kind(),
            r.chosen_sender() == old(self).chosen_sender(),
            r.chosen_datum() == Some(MessageDatum::Act(*a)),
            *final(self) == *final(r),
    {
        self.with_datum(MessageDatum::Act(a.clone()))
    }

    /// The message built so far. Without a sender, the sender is a fresh address to which
    /// nothing can be delivered; without a datum, the datum is `Void`.
    pub fn build(&self) -> (r: Message)
        ensures
            r.kind() == self.kind(),
            match self.chosen_sender() {
                Some(s) => r.origin() == s,
                None => r.origin().id() & 0xF000C000000000000000 == 0x40008000000000000000,
            },
            match self.chosen_datum() {
                Some(d) => r.payload().copies(d),
                None => r.payload() == MessageDatum::Void,
            },
    {
        let sender = match &self.sender {
            Some(s) => s.clone(),
            None => ActorAddress::null_route(),
        };
        let datum = match &self.datum {
            Some(d) => d.clone(),
            None => MessageDatum::Void,
        };
        Message { mt: self.mt, sender, datum }
    }

    /// Builds the message and puts it into the mailbox of `to`; a closed mailbox drops it.
    pub fn send_to(&self, to: &ActorAddress) {
        to.post(self.build());
    }
}

} // verus!
