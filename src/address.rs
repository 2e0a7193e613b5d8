//! Actor addresses: a stable identity plus the send end of one mailbox.

use std::sync::mpsc::{Receiver, Sender};
use vstd::prelude::*;

use crate::message::Message;

verus! {

#[verifier::external_type_specification]
#[verifier::external_body]
#[verifier::reject_recursive_types(T)]
pub struct ExSender<T>(Sender<T>);

#[verifier::external_type_specification]
#[verifier::external_body]
#[verifier::reject_recursive_types(T)]
pub struct ExReceiver<T>(Receiver<T>);

/// The send end of one mailbox.
///
/// A message holds its sender's address, so a `Sender<Message>` seen by Verus would make
/// `Message` reach itself through std's channel, a recursion Verus refuses. The channel end
/// is therefore kept opaque here, and is only ever used through the functions below.
#[verifier::external_body]
#[derive(Debug)]
pub struct Route {
    tx: Sender<Message>,
}

impl Route {
    /// Relies on `Sender::send`: the message is queued behind those sent before it through
    /// the same mailbox; when the receiving end is gone it is dropped without an error.
    #[verifier::external_body]
    fn post(&self, m: Message) {
        let _ = self.tx.send(m);
    }
}

impl Clone for Route {
    /// Relies on `Sender::clone`: the copy feeds the same mailbox.
    #[verifier::external_body]
    fn clone(&self) -> (r: Self)
        ensures
            r == *self,
    {
        Route { tx: self.tx.clone() }
    }
}

/// Takes a `std::sync::mpsc::Sender` as a route; nothing is called, the value only moves.
#[verifier::external_body]
fn route_of(tx: Sender<Message>) -> Route {
    Route { tx }
}

/// Relies on `std::sync::mpsc::channel`: a new, empty, unbounded mailbox and its send end.
#[verifier::external_body]
pub(crate) fn open_channel() -> (Sender<Message>, Receiver<Message>) {
    std::sync::mpsc::channel()
}

/// Relies on uuid's `Uuid::new_v4` and `Uuid::as_u128`: a random identity whose version
/// bits read 4 and whose variant bits read 0b10, as every version-4 UUID has them.
#[verifier::external_body]
fn fresh_identity() -> (r: u128)
    ensures
        r & 0xF000C000000000000000 == 0x40008000000000000000,
{
    uuid::Uuid::new_v4().as_u128()
}

/// The identity of one actor and a send capability to its mailbox. Copies are cheap and
/// refer to the same actor; dropping them does not stop it.
#[derive(Debug)]
pub struct ActorAddress {
    id: u128,
    endpoint: Route,
}

impl ActorAddress {
    /// The identity; two addresses with the same identity refer to the same actor.
    pub closed spec fn id(&self) -> u128 {
        self.id
    }

    /// An address with a fresh identity that sends into the given channel; this is how
    /// code that is not an actor receives messages from actors.
    pub fn new(endpoint: Sender<Message>) -> (r: ActorAddress)
        ensures
            r.id() & 0xF000C000000000000000 == 0x40008000000000000000,
    {
        ActorAddress { id: fresh_identity(), endpoint: route_of(endpoint) }
    }

    /// An address with a fresh identity whose mailbox is already gone: whatever is sent
    /// to it is dropped.
    pub fn null_route() -> (r: ActorAddress)
        ensures
            r.id() & 0xF000C000000000000000 == 0x40008000000000000000,
    {
        let (tx, _) = open_channel();
        ActorAddress::new(tx)
    }

    /// The identity, as a number.
    pub fn identity(&self) -> (r: u128)
        ensures
            r == self.id(),
    {
        self.id
    }

    /// Whether both addresses refer to the same actor.
    pub fn same_actor(&self, other: &ActorAddress) -> (r: bool)
        ensures
            r == (self.id() == other.id()),
    {
        self.id == other.id
    }

    /// Puts a message into this actor's mailbox; never fails, even when the actor is gone.
    pub fn post(&self, m: Message) {
        self.endpoint.post(m);
    }
}

impl Clone for ActorAddress {
    fn clone(&self) -> (r: Self)
        ensures
            r == *self,
    {
        ActorAddress { id: self.id, endpoint: self.endpoint.clone() }
    }
}

} // verus!
