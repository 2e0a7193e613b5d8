//! The registry: an actor that binds names to actors, answers lookups, and forgets an
//! actor when it exits.

use std::collections::HashMap;
use vstd::prelude::*;

use crate::actor::{send_all, Actor, Envelope};
use crate::address::ActorAddress;
use crate::message::{Message, MessageDatum, MessageType};

verus! {

broadcast use vstd::std_specs::hash::group_hash_axioms;


/// The value under the key of `m` that reads `k`, if there is one.
pub open spec fn dict_get(m: Map<String, MessageDatum>, k: Seq<char>) -> Option<MessageDatum> {
    if exists|s: String| m.contains_key(s) && s@ == k {
        Some(m[choose|s: String| m.contains_key(s) && s@ == k])
    } else {
        None
    }
}

/// Relies on `HashMap::get`: the value under the key that reads `k`, if there is one.
#[verifier::external_body]
fn dict_lookup<'a>(m: &'a HashMap<String, MessageDatum>, k: &str) -> (r: Option<&'a MessageDatum>)
    ensures
        match r {
            Some(v) => dict_get(m@, k@) == Some(*v),
            None => dict_get(m@, k@) is None,
        },
{
    m.get(k)
}

/// Relies on `HashMap::insert`: afterwards the key that reads like `k` holds `v`, and every
/// other key holds what it held.
#[verifier::external_body]
fn dict_insert(m: &mut HashMap<String, MessageDatum>, k: String, v: MessageDatum)
    ensures
        dict_get(final(m)@, k@) == Some(v),
        forall|k2: Seq<char>| k2 != k@ ==> dict_get(final(m)@, k2) == dict_get(old(m)@, k2),
{
    m.insert(k, v);
}

/// The name and the actor a `Register` datum asks to bind: a map whose key `name` holds a
/// string and whose key `actor` holds an address.
pub open spec fn register_request(d: MessageDatum) -> Option<(Seq<char>, ActorAddress)> {
    match d {
        MessageDatum::Dict(m) => match (dict_get(m@, "name"@), dict_get(m@, "actor"@)) {
            (Some(MessageDatum::Str(s)), Some(MessageDatum::Act(a))) => Some((s@, a)),
            _ => None,
        },
        _ => None,
    }
}

/// `e` carries a message of kind `k` with datum `d` from `me` to `to`.
pub open spec fn carries(e: Envelope, to: ActorAddress, k: MessageType, me: ActorAddress, d: MessageDatum) -> bool {
    &&& e.to == to
    &&& e.message.kind() == k
    &&& e.message.origin() == me
    &&& e.message.payload() == d
}

/// The registry's state: names bound to actors, and each bound actor's identity mapped to
/// its name.
pub struct RegistryState {
    names: Vec<(String, ActorAddress)>,
    ids: HashMap<u128, String>,
}

impl RegistryState {
    /// The bindings of names to actors, in the order they were made.
    pub closed spec fn bindings(&self) -> Seq<(String, ActorAddress)> {
        self.names@
    }

    pub closed spec fn id_names(&self) -> Map<u128, String> {
        self.ids@
    }

    /// The binding at `i` is for name `n`.
    pub open spec fn holds(&self, n: Seq<char>, i: int) -> bool {
        0 <= i < self.bindings().len() && self.bindings()[i].0@ == n
    }

    /// The binding at `i` is the first one for name `n`.
    pub open spec fn first(&self, n: Seq<char>, i: int) -> bool {
        &&& self.holds(n, i)
        &&& forall|j: int| 0 <= j < i ==> !self.holds(n, j)
    }

    /// Name to actor.
    pub open spec fn name_map(&self) -> Map<Seq<char>, ActorAddress> {
        Map::new(
            |n: Seq<char>| exists|i: int| self.holds(n, i),
            |n: Seq<char>| self.bindings()[choose|i: int| self.first(n, i)].1,
        )
    }

    /// Identity to name.
    pub open spec fn id_map(&self) -> Map<u128, Seq<char>> {
        Map::new(|x: u128| self.id_names().contains_key(x), |x: u128| self.id_names()[x]@)
    }

    /// The two maps are inverse to each other: `n` is bound to an actor with identity `x`
    /// exactly when `x` maps to `n`.
    pub open spec fn inverse(&self) -> bool {
        forall|n: Seq<char>, x: u128| #[trigger] self.inverse_at(n, x)
    }

    /// `n` is bound to an actor with identity `x` exactly when `x` maps to `n`.
    pub open spec fn inverse_at(&self, n: Seq<char>, x: u128) -> bool {
        (self.name_map().contains_key(n) && self.name_map()[n].id() == x) <==> (
        self.id_map().contains_key(x) && self.id_map()[x] == n)
    }

    /// What handling `m` does, for the registry at `me`: from `before` to `after`, sending
    /// `out`.
    pub open spec fn handled(
        before: RegistryState,
        m: Message,
        me: ActorAddress,
        after: RegistryState,
        out: Seq<Envelope>,
    ) -> bool {
        match m.kind() {
            MessageType::Register => match register_request(m.payload()) {
                Some((n, a)) => if before.name_map().contains_key(n) || before.id_map().contains_key(a.id()) {
                    &&& after == before
                    &&& out.len() == 1
                    &&& carries(out[0], m.origin(), MessageType::RegisterResponse, me, MessageDatum::Void)
                } else {
                    &&& after.name_map() == before.name_map().insert(n, a)
                    &&& after.id_map() == before.id_map().insert(a.id(), n)
                    &&& out.len() == 2
                    &&& carries(out[0], a, MessageType::Link, me, MessageDatum::Void)
                    &&& out[1].to == m.origin()
                    &&& out[1].message.kind() == MessageType::RegisterResponse
                    &&& out[1].message.origin() == me
                    &&& out[1].message.payload() is Str
                    &&& out[1].message.payload()->Str_0@ == n
                },
                None => {
                    &&& after == before
                    &&& out.len() == 1
                    &&& carries(out[0], m.origin(), MessageType::RegisterResponse, me, MessageDatum::Void)
                },
            },
            MessageType::WhereIs => {
                &&& after == before
                &&& out.len() == 1
                &&& carries(
                    out[0],
                    m.origin(),
                    MessageType::WhereIsResponse,
                    me,
                    match m.payload() {
                        MessageDatum::Str(s) => if before.name_map().contains_key(s@) {
                            MessageDatum::Act(before.name_map()[s@])
                        } else {
                            MessageDatum::Void
                        },
                        _ => MessageDatum::Void,
                    },
                )
            },
            MessageType::Exited => {
                &&& out.len() == 0
                &&& if before.id_map().contains_key(m.origin().id()) {
                    &&& after.id_map() == before.id_map().remove(m.origin().id())
                    &&& after.name_map() == before.name_map().remove(
                        before.id_map()[m.origin().id()],
                    )
                } else {
                    after == before
                }
            },
            MessageType::Shutdown => {
                &&& after == before
                &&& out.len() == before.bindings().len()
                &&& forall|i: int|
                    0 <= i < out.len() ==> carries(
                        #[trigger] out[i],
                        before.bindings()[i].1,
                        MessageType::Shutdown,
                        me,
                        MessageDatum::Void,
                    )
            },
            _ => after == before && out.len() == 0,
        }
    }

    /// The first binding for `n` is what the name map holds for it.
    proof fn lemma_binding(&self, n: Seq<char>, i: int)
        requires
            self.first(n, i),
        ensures
            self.name_map().contains_key(n),
            self.name_map()[n] == self.bindings()[i].1,
    {
        let j = choose|j: int| self.first(n, j);
        if j < i {
            assert(!self.holds(n, j));
        } else if i < j {
            assert(!self.holds(n, i));
        }
    }

    /// A name with a binding at `k` has a first binding, at or before `k`.
    proof fn lemma_first_below(&self, n: Seq<char>, k: int) -> (i: int)
        requires
            self.holds(n, k),
        ensures
            self.first(n, i),
            i <= k,
        decreases k,
    {
        if exists|j: int| 0 <= j < k && self.holds(n, j) {
            let j = choose|j: int| 0 <= j < k && self.holds(n, j);
            self.lemma_first_below(n, j)
        } else {
            k
        }
    }

    /// A name that is bound has a first binding.
    proof fn lemma_first_exists(&self, n: Seq<char>) -> (i: int)
        requires
            self.name_map().contains_key(n),
        ensures
            self.first(n, i),
    {
        let k = choose|k: int| self.holds(n, k);
        self.lemma_first_below(n, k)
    }

    /// An empty registry.
    pub fn new() -> (r: Self)
        ensures
            r.name_map() == Map::<Seq<char>, ActorAddress>::empty(),
            r.id_map() == Map::<u128, Seq<char>>::empty(),
            r.bindings().len() == 0,
            r.inverse(),
    {
        let r = RegistryState { names: Vec::new(), ids: HashMap::new() };
        assert(r.name_map() =~= Map::<Seq<char>, ActorAddress>::empty());
        assert(r.id_map() =~= Map::<u128, Seq<char>>::empty());
        r
    }

    /// The index of the first binding for `n`, if `n` is bound.
    fn find(&self, n: &String) -> (r: Option<usize>)
        ensures
            match r {
                Some(i) => self.first(n@, i as int),
                None => !self.name_map().contains_key(n@),
            },
    {
        let mut i: usize = 0;
        while i < self.names.len()
            invariant
                0 <= i <= self.bindings().len(),
                forall|j: int| 0 <= j < i ==> self.bindings()[j].0@ != n@,
            decreases self.names.len() - i,
        {
            if self.names[i].0 == *n {
                return Some(i);
            }
            i += 1;
        }
        None
    }

    fn reply(to: &ActorAddress, kind: MessageType, me: &ActorAddress, datum: MessageDatum) -> (r: Envelope)
        ensures
            carries(r, *to, kind, *me, datum),
    {
        Envelope { to: to.clone(), message: Message::compose(kind, me.clone(), datum) }
    }

    fn register(&mut self, m: &Message, me: &ActorAddress) -> (out: Vec<Envelope>)
        requires
            m.kind() == MessageType::Register,
        ensures
            Self::handled(*old(self), *m, *me, *final(self), out@),
    {
        let mut out: Vec<Envelope> = Vec::new();
        let refusal = Self::reply(m.get_sender(), MessageType::RegisterResponse, me, MessageDatum::Void);
        let fields = match m.get_datum() {
            MessageDatum::Dict(d) => match dict_lookup(d, "name") {
                Some(MessageDatum::Str(s)) => match dict_lookup(d, "actor") {
                    Some(MessageDatum::Act(a)) => Some((s, a)),
                    _ => None,
                },
                _ => None,
            },
            _ => None,
        };
        match fields {
            Some((s, a)) => {
                let taken = match self.find(s) {
                    Some(i) => {
                        proof {
                            self.lemma_binding(s@, i as int);
                        }
                        true
                    },
                    None => self.ids.contains_key(&a.identity()),
                };
                match taken {
                    true => {
                        out.push(refusal);
                    },
                    false => {
                        let ghost before = *self;
                        self.names.push((s.clone(), a.clone()));
                        self.ids.insert(a.identity(), s.clone());
                        proof {
                            assert(self.name_map() =~= before.name_map().insert(s@, *a)) by {
                                assert forall|n: Seq<char>| #[trigger] self.name_map().contains_key(n)
                                    == before.name_map().insert(s@, *a).contains_key(n) by {
                                    if n == s@ {
                                        assert(self.holds(n, before.bindings().len() as int));
                                    } else if self.name_map().contains_key(n) {
                                        let j = choose|j: int| self.holds(n, j);
                                        assert(before.holds(n, j));
                                    } else if before.name_map().contains_key(n) {
                                        let j = choose|j: int| before.holds(n, j);
                                        assert(self.holds(n, j));
                                    }
                                }
                                assert forall|n: Seq<char>| #[trigger] self.name_map().contains_key(n)
                                    implies self.name_map()[n] == before.name_map().insert(s@, *a)[n] by {
                                    assert(forall|j: int| 0 <= j < before.bindings().len() ==> #[trigger] self.bindings()[j] == before.bindings()[j]);
                                    if n == s@ {
                                        let last = before.bindings().len() as int;
                                        assert(!before.name_map().contains_key(n));
                                        assert forall|j: int| 0 <= j < last implies !self.holds(n, j) by {
                                            assert(!before.holds(n, j));
                                        }
                                        assert(self.first(n, last));
                                        self.lemma_binding(n, last);
                                    } else {
                                        let j = before.lemma_first_exists(n);
                                        assert forall|k: int| 0 <= k < j implies !self.holds(n, k) by {
                                            assert(!before.holds(n, k));
                                        }
                                        assert(self.first(n, j));
                                        before.lemma_binding(n, j);
                                        self.lemma_binding(n, j);
                                    }
                                }
                            }
                            assert(self.id_map() =~= before.id_map().insert(a.id(), s@));
                        }
                        out.push(Self::reply(a, MessageType::Link, me, MessageDatum::Void));
                        out.push(
                            Self::reply(
                                m.get_sender(),
                                MessageType::RegisterResponse,
                                me,
                                MessageDatum::Str(s.clone()),
                            ),
                        );
                    },
                }
            },
            None => {
                out.push(refusal);
            },
        }
        out
    }

    /// Removing the first binding of `n` leaves every other name's binding as it was.
    proof fn lemma_remove_first(before: RegistryState, after: RegistryState, n: Seq<char>, i: int)
        requires
            before.first(n, i),
            after.bindings() == before.bindings().remove(i),
        ensures
            after.name_map().remove(n) == before.name_map().remove(n),
    {
        assert forall|j: int| 0 <= j < after.bindings().len() implies #[trigger] after.bindings()[j] == (
        if j < i {
            before.bindings()[j]
        } else {
            before.bindings()[j + 1]
        }) by {}
        assert forall|m: Seq<char>| m != n implies #[trigger] after.name_map().contains_key(m)
            == before.name_map().contains_key(m) by {
            if after.name_map().contains_key(m) {
                let j = choose|j: int| after.holds(m, j);
                if j < i {
                    assert(before.holds(m, j));
                } else {
                    assert(before.holds(m, j + 1));
                }
            }
            if before.name_map().contains_key(m) {
                let j = choose|j: int| before.holds(m, j);
                assert(j != i);
                if j < i {
                    assert(after.holds(m, j));
                } else {
                    assert(after.holds(m, j - 1));
                }
            }
        }
        assert forall|m: Seq<char>| m != n && #[trigger] after.name_map().contains_key(m)
            implies after.name_map()[m] == before.name_map()[m] by {
            let j = before.lemma_first_exists(m);
            assert(j != i);
            if j < i {
                assert forall|k: int| 0 <= k < j implies !after.holds(m, k) by {
                    assert(!before.holds(m, k));
                }
                assert(after.first(m, j));
                after.lemma_binding(m, j);
            } else {
                assert forall|k: int| 0 <= k < j - 1 implies !after.holds(m, k) by {
                    if k < i {
                        assert(!before.holds(m, k));
                    } else {
                        assert(!before.holds(m, k + 1));
                    }
                }
                assert(after.first(m, j - 1));
                after.lemma_binding(m, j - 1);
            }
            before.lemma_binding(m, j);
        }
        assert(after.name_map().remove(n) =~= before.name_map().remove(n));
    }

    /// The name map depends on the bindings alone.
    proof fn lemma_same_bindings(a: RegistryState, b: RegistryState)
        requires
            a.bindings() == b.bindings(),
        ensures
            a.name_map() == b.name_map(),
    {
        assert forall|n: Seq<char>| #[trigger] a.name_map().contains_key(n) implies a.name_map()[n]
            == b.name_map()[n] by {
            let i = a.lemma_first_exists(n);
            assert forall|j: int| 0 <= j < i implies !b.holds(n, j) by {
                assert(!a.holds(n, j));
            }
            assert(b.first(n, i));
            a.lemma_binding(n, i);
            b.lemma_binding(n, i);
        }
        assert forall|n: Seq<char>| #[trigger] a.name_map().contains_key(n) == b.name_map().contains_key(n) by {
            if a.name_map().contains_key(n) {
                let i = choose|i: int| a.holds(n, i);
                assert(b.holds(n, i));
            }
            if b.name_map().contains_key(n) {
                let i = choose|i: int| b.holds(n, i);
                assert(a.holds(n, i));
            }
        }
        assert(a.name_map() =~= b.name_map());
    }

    /// Unbinds `n`.
    fn remove_name(&mut self, n: &String)
        ensures
            final(self).name_map() == old(self).name_map().remove(n@),
            final(self).id_names() == old(self).id_names(),
    {
        loop
            invariant
                self.name_map().remove(n@) == old(self).name_map().remove(n@),
                self.id_names() == old(self).id_names(),
            decreases self.bindings().len(),
        {
            match self.find(n) {
                Some(i) => {
                    let ghost before = *self;
                    self.names.remove(i);
                    proof {
                        Self::lemma_remove_first(before, *self, n@, i as int);
                    }
                },
                None => {
                    assert(self.name_map() =~= self.name_map().remove(n@));
                    return;
                },
            }
        }
    }

    fn where_is(&self, m: &Message, me: &ActorAddress) -> (out: Vec<Envelope>)
        requires
            m.kind() == MessageType::WhereIs,
        ensures
            Self::handled(*self, *m, *me, *self, out@),
    {
        let datum = match m.get_datum() {
            MessageDatum::Str(s) => match self.find(s) {
                Some(i) => {
                    proof {
                        self.lemma_binding(s@, i as int);
                    }
                    MessageDatum::Act(self.names[i].1.clone())
                },
                None => MessageDatum::Void,
            },
            _ => MessageDatum::Void,
        };
        let mut out: Vec<Envelope> = Vec::new();
        out.push(Self::reply(m.get_sender(), MessageType::WhereIsResponse, me, datum));
        out
    }

    fn forget(&mut self, m: &Message, me: &ActorAddress)
        requires
            m.kind() == MessageType::Exited,
        ensures
            Self::handled(*old(self), *m, *me, *final(self), Seq::empty()),
    {
        let x = m.get_sender().identity();
        let ghost before = *self;
        if self.ids.contains_key(&x) {
            assert(before.id_map().contains_key(x));
            let gone = self.ids.remove(&x);
            assert(gone == Some(before.id_names()[x]));
            proof {
                Self::lemma_same_bindings(*self, before);
            }
            if let Some(n) = gone {
                self.remove_name(&n);
            }
            assert(self.id_map() =~= before.id_map().remove(x));
            assert(self.name_map() == before.name_map().remove(before.id_map()[x]));
        } else {
            assert(!before.id_map().contains_key(x));
        }
    }

    fn farewell(&self, m: &Message, me: &ActorAddress) -> (out: Vec<Envelope>)
        requires
            m.kind() == MessageType::Shutdown,
        ensures
            Self::handled(*self, *m, *me, *self, out@),
    {
        let mut out: Vec<Envelope> = Vec::new();
        let mut i: usize = 0;
        while i < self.names.len()
            invariant
                0 <= i <= self.bindings().len(),
                out@.len() == i,
                forall|k: int|
                    0 <= k < i ==> carries(
                        #[trigger] out@[k],
                        self.bindings()[k].1,
                        MessageType::Shutdown,
                        *me,
                        MessageDatum::Void,
                    ),
            decreases self.names.len() - i,
        {
            out.push(Self::reply(&self.names[i].1, MessageType::Shutdown, me, MessageDatum::Void));
            i += 1;
        }
        out
    }

    /// Handles one message sent to the registry at `me` and returns the replies to send.
    ///
    /// `Register` binds the requested name to the requested actor unless the name is
    /// taken, the actor is already bound under another name, or the request is malformed;
    /// on success it links the registry to that actor and answers with the name, otherwise
    /// with `Void`. `WhereIs` answers with the actor
    /// bound to the name, or `Void`. `Exited` from a bound actor removes its entries.
    /// `Shutdown` tells every bound actor to shut down. Anything else is ignored.
    pub fn handle(&mut self, m: &Message, me: &ActorAddress) -> (out: Vec<Envelope>)
        ensures
            Self::handled(*old(self), *m, *me, *final(self), out@),
    {
        match m.get_type() {
            MessageType::Register => self.register(m, me),
            MessageType::WhereIs => self.where_is(m, me),
            MessageType::Exited => {
                self.forget(m, me);
                Vec::new()
            },
            MessageType::Shutdown => self.farewell(m, me),
            _ => Vec::new(),
        }
    }
}

/// A `Register` request, answered to `reply_to`, to bind `name` to `actor`.
pub fn register_message(reply_to: &ActorAddress, name: &str, actor: &ActorAddress) -> (r: Message)
    ensures
        r.kind() == MessageType::Register,
        r.origin() == *reply_to,
        register_request(r.payload()) == Some((name@, *actor)),
{
    let mut fields: HashMap<String, MessageDatum> = HashMap::new();
    proof {
        assert(forall|k: Seq<char>| dict_get(fields@, k) is None);
        reveal_strlit("name");
        reveal_strlit("actor");
        assert("name"@ != "actor"@) by {
            assert("name"@.len() != "actor"@.len());
        }
    }
    dict_insert(&mut fields, "name".to_owned(), MessageDatum::Str(name.to_owned()));
    dict_insert(&mut fields, "actor".to_owned(), MessageDatum::Act(actor.clone()));
    Message::compose(MessageType::Register, reply_to.clone(), MessageDatum::Dict(fields))
}

/// A `WhereIs` request, answered to `reply_to`, for the actor bound to `name`.
pub fn where_is_message(reply_to: &ActorAddress, name: &str) -> (r: Message)
    ensures
        r.kind() == MessageType::WhereIs,
        r.origin() == *reply_to,
        r.payload() is Str,
        r.payload()->Str_0@ == name@,
{
    Message::compose(MessageType::WhereIs, reply_to.clone(), MessageDatum::Str(name.to_owned()))
}

/// Whether an answer to `Register` reports that the name was bound.
pub fn registered(reply: &Message) -> (r: bool)
    ensures
        r == (reply.payload() is Str),
{
    match reply.get_datum() {
        MessageDatum::Str(_) => true,
        _ => false,
    }
}

/// The actor an answer to `WhereIs` names, if any.
pub fn located(reply: &Message) -> (r: Option<ActorAddress>)
    ensures
        match reply.payload() {
            MessageDatum::Act(a) => r == Some(a),
            _ => r is None,
        },
{
    reply.get_datum().as_act()
}

/// Handling `m` at the registry `me` takes state `s` to `t`, with some replies.
pub open spec fn serves(s: RegistryState, m: Message, me: ActorAddress, t: RegistryState) -> bool {
    exists|out: Seq<Envelope>| RegistryState::handled(s, m, me, t, out)
}

impl Default for RegistryState {
    fn default() -> (r: Self)
        ensures
            r.name_map() == Map::<Seq<char>, ActorAddress>::empty(),
            r.id_map() == Map::<u128, Seq<char>>::empty(),
            r.bindings().len() == 0,
            r.inverse(),
    {
        RegistryState::new()
    }
}

/// The registry as an actor: its one rule takes every message, and its one action runs
/// `RegistryState::handle` on it and sends the replies; the runtime then reacts to `Link` and `Shutdown` as it does for any actor.
pub fn registry_actor() -> (r: Actor<RegistryState>)
    ensures
        r.wf(),
        r.alive(),
        r.rule_count() == 1,
        r.rules()[0].action_count() == 1,
        forall|m: Message, s: RegistryState| !(#[trigger] r.rules()[0].refuses(m, s)),
        forall|m: Message, s: RegistryState, me: ActorAddress, t: RegistryState, x: Result<(), String>|
            #[trigger] r.rules()[0].performs(0, m, s, me, t, x) ==> x is Ok && serves(s, m, me, t),
        r.pending().len() == 0,
        r.links().len() == 0,
        r.state().name_map() == Map::<Seq<char>, ActorAddress>::empty(),
        r.state().id_map() == Map::<u128, Seq<char>>::empty(),
{
    let serve = |m: &Message, s: RegistryState, me: &ActorAddress| -> (r: (RegistryState, Result<(), String>))
        ensures
            r.1 is Ok,
            serves(s, *m, *me, r.0),
        {
            let ghost s0 = s;
            let mut t = s;
            let out = t.handle(m, me);
            send_all(&out);
            assert(RegistryState::handled(s0, *m, *me, t, out@));
            (t, Ok(()))
        };
    Actor::from_handler(RegistryState::new(), serve)
}

proof fn lemma_inverse_at(s: RegistryState, n: Seq<char>, x: u128)
    requires
        s.inverse(),
    ensures
        (s.name_map().contains_key(n) && s.name_map()[n].id() == x) <==> (s.id_map().contains_key(x)
            && s.id_map()[x] == n),
{
    assert(s.inverse_at(n, x));
}

/// Handling any message keeps the name map and the identity map inverse to each other.
pub proof fn lemma_inverse_kept(
    before: RegistryState,
    m: Message,
    me: ActorAddress,
    after: RegistryState,
    out: Seq<Envelope>,
)
    requires
        before.inverse(),
        RegistryState::handled(before, m, me, after, out),
    ensures
        after.inverse(),
{
    if m.kind() == MessageType::Register {
        if let Some((n, a)) = register_request(m.payload()) {
            if !before.name_map().contains_key(n) && !before.id_map().contains_key(a.id()) {
                assert forall|n2: Seq<char>, x: u128| #[trigger] after.inverse_at(n2, x) by {
                    lemma_inverse_at(before, n2, x);
                    lemma_inverse_at(before, n2, a.id());
                    lemma_inverse_at(before, n, x);
                }
            }
        }
    } else if m.kind() == MessageType::Exited {
        let y = m.origin().id();
        if before.id_map().contains_key(y) {
            let gone = before.id_map()[y];
            assert forall|n2: Seq<char>, x: u128| #[trigger] after.inverse_at(n2, x) by {
                lemma_inverse_at(before, n2, x);
                lemma_inverse_at(before, gone, y);
                lemma_inverse_at(before, n2, y);
                lemma_inverse_at(before, gone, x);
            }
        }
    }
}

/// A name is registered once: a `Register` for a free name, of an actor not bound yet,
/// succeeds and binds it; a `Register` for a bound name is refused and changes nothing; and
/// a bound name stays bound to the same actor under every message but the `Exited` of that
/// actor.
pub proof fn lemma_register_once(
    before: RegistryState,
    m: Message,
    me: ActorAddress,
    after: RegistryState,
    out: Seq<Envelope>,
    n: Seq<char>,
)
    requires
        before.inverse(),
        RegistryState::handled(before, m, me, after, out),
    ensures
        m.kind() == MessageType::Register && register_request(m.payload()) is Some
            && register_request(m.payload()).unwrap().0 == n ==> if before.name_map().contains_key(n) {
            &&& after == before
            &&& out[0].message.kind() == MessageType::RegisterResponse
            &&& out[0].message.payload() == MessageDatum::Void
        } else if !before.id_map().contains_key(register_request(m.payload()).unwrap().1.id()) {
            &&& after.name_map().contains_key(n)
            &&& after.name_map()[n] == register_request(m.payload()).unwrap().1
            &&& out[1].message.kind() == MessageType::RegisterResponse
            &&& out[1].message.payload() is Str
            &&& out[1].message.payload()->Str_0@ == n
        } else {
            &&& after == before
            &&& out[0].message.payload() == MessageDatum::Void
        },
        before.name_map().contains_key(n) && !(m.kind() == MessageType::Exited && m.origin().id()
            == before.name_map()[n].id()) ==> after.name_map().contains_key(n) && after.name_map()[n]
            == before.name_map()[n],
{
    if m.kind() == MessageType::Exited && before.name_map().contains_key(n) {
        let y = m.origin().id();
        lemma_inverse_at(before, n, y);
        lemma_inverse_at(before, n, before.name_map()[n].id());
    }
}
} // verus!
