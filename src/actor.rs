//! Declarative actors: a state, an ordered list of matchers each with its ordered list of
//! actions, a queue of pending messages and the uplinks to notify on exit.

use std::sync::mpsc::Receiver;
use vstd::prelude::*;

use crate::address::{open_channel, ActorAddress};
use crate::message::{Message, MessageDatum, MessageType};

verus! {

/// The state of an actor that keeps none.
#[derive(Default, Debug)]
pub struct Stateless;

/// A test on a message and the actor's state; it must have no side effects.
pub trait Matcher<S>: Send {
    /// The matcher may be asked about `m` in state `s`.
    spec fn admits(&self, m: Message, s: S) -> bool;

    /// `r` is an answer the matcher may give about `m` in state `s`.
    spec fn answers(&self, m: Message, s: S, r: bool) -> bool;

    fn matches(&self, m: &Message, s: &S) -> (r: bool)
        requires
            self.admits(*m, *s),
        ensures
            self.answers(*m, *s, r),
    ;
}

impl<S, F: Fn(&Message, &S) -> bool + Send> Matcher<S> for F {
    open spec fn admits(&self, m: Message, s: S) -> bool {
        call_requires(*self, (&m, &s))
    }

    open spec fn answers(&self, m: Message, s: S, r: bool) -> bool {
        call_ensures(*self, (&m, &s), r)
    }

    fn matches(&self, m: &Message, s: &S) -> (r: bool) {
        (self)(m, s)
    }
}

/// A step taken on a matched message: it gets the message, the state and the actor's own
/// address (to send from), and hands back the state with `Ok`, or with the reason to stop
/// the actor.
pub trait Action<S>: Send {
    /// The action may be run on `m` in state `s`.
    spec fn admits(&self, m: Message, s: S) -> bool;

    /// Run on `m` in state `s` by the actor at `me`, the action may hand back state `t` and
    /// outcome `r`.
    spec fn performs(&self, m: Message, s: S, me: ActorAddress, t: S, r: Result<(), String>) -> bool;

    fn perform(&self, m: &Message, s: S, me: &ActorAddress) -> (r: (S, Result<(), String>))
        requires
            self.admits(*m, s),
        ensures
            self.performs(*m, s, *me, r.0, r.1),
    ;
}

impl<S, F: Fn(&Message, S, &ActorAddress) -> (S, Result<(), String>) + Send> Action<S> for F {
    open spec fn admits(&self, m: Message, s: S) -> bool {
        forall|me: ActorAddress| call_requires(*self, (&m, s, &me))
    }

    open spec fn performs(&self, m: Message, s: S, me: ActorAddress, t: S, r: Result<(), String>) -> bool {
        call_ensures(*self, (&m, s, &me), (t, r))
    }

    fn perform(&self, m: &Message, s: S, me: &ActorAddress) -> (r: (S, Result<(), String>)) {
        (self)(m, s, me)
    }
}

/// A message the runtime sends on an actor's behalf.
pub struct Envelope {
    pub to: ActorAddress,
    pub message: Message,
}

/// Sends each envelope, in order.
pub fn send_all(out: &Vec<Envelope>) {
    let mut k: usize = 0;
    while k < out.len()
        decreases out.len() - k,
    {
        out[k].to.post(out[k].message.clone());
        k += 1;
    }
}

/// What one dispatch step did.
pub enum Step {
    /// Rule `rule` took the message at `index` of the queue and all its actions succeeded.
    Handled { index: usize, rule: usize },
    /// No rule took any queued message; the runtime handled the `Link` or `Shutdown` at
    /// `index`.
    System { index: usize },
    /// An action of rule `rule` failed on the message at `index`; the actor has stopped.
    Crashed { index: usize, rule: usize, reason: String },
    /// Nothing queued can be handled now, or the actor has stopped.
    Idle,
}

/// A successful outcome that carries nothing is `Ok(())`.
proof fn lemma_unit_ok(r: Result<(), String>)
    requires
        r is Ok,
    ensures
        r == Ok::<(), String>(()),
{
    let u: () = r->Ok_0;
    assert(r == Ok::<(), String>(u));
}

/// Kinds that the runtime acts on by itself.
pub open spec fn runtime_kind(k: MessageType) -> bool {
    k == MessageType::Link || k == MessageType::Shutdown
}

/// `notes` tell each uplink in order, once per entry, that `me` exited with `datum`.
pub open spec fn exit_notices(
    notes: Seq<Envelope>,
    uplinks: Seq<ActorAddress>,
    me: ActorAddress,
    datum: MessageDatum,
) -> bool {
    &&& notes.len() == uplinks.len()
    &&& forall|k: int|
        0 <= k < notes.len() ==> {
            &&& (#[trigger] notes[k]).to == uplinks[k]
            &&& notes[k].message.kind() == MessageType::Exited
            &&& notes[k].message.origin() == me
            &&& notes[k].message.payload() == datum
        }
}

/// One rule: a matcher and the actions to run, in order, on what it matches.
#[verifier::reject_recursive_types(S)]
pub struct Rule<S> {
    matcher: Box<dyn Matcher<S>>,
    actions: Vec<Deed<S>>,
}

/// One action of a rule.
#[verifier::reject_recursive_types(S)]
pub struct Deed<S> {
    action: Box<dyn Action<S>>,
}

impl<S> Deed<S> {
    fn new<T: Fn(&Message, S, &ActorAddress) -> (S, Result<(), String>) + Send + 'static>(
        ac: T,
    ) -> (r: Deed<S>)
        requires
            forall|m: Message, s: S, me: ActorAddress| call_requires(ac, (&m, s, &me)),
        ensures
            forall|m: Message, s: S| r.action.admits(m, s),
            forall|m: Message, s: S, me: ActorAddress, t: S, x: Result<(), String>| #[trigger] r.action.performs(m, s, me, t, x) == call_ensures(ac, (&m, s, &me), (t, x)),
    {
        Deed { action: Box::new(ac) }
    }
}

impl<S> Rule<S> {
    /// A rule with the given matcher and no actions yet.
    fn new<T: Fn(&Message, &S) -> bool + Send + 'static>(mc: T) -> (r: Rule<S>)
        requires
            forall|m: Message, s: S| call_requires(mc, (&m, &s)),
        ensures
            r.wf(),
            r.action_count() == 0,
            forall|m: Message, s: S, b: bool| #[trigger] r.answers(m, s, b) == call_ensures(mc, (&m, &s), b),
    {
        Rule { matcher: Box::new(mc), actions: Vec::new() }
    }

    /// The same rule with one more action, run after the others.
    fn followed_by<T: Fn(&Message, S, &ActorAddress) -> (S, Result<(), String>) + Send + 'static>(
        self,
        ac: T,
    ) -> (r: Rule<S>)
        requires
            self.wf(),
            forall|m: Message, s: S, me: ActorAddress| call_requires(ac, (&m, s, &me)),
        ensures
            r.wf(),
            r.action_count() == self.action_count() + 1,
            r.matcher == self.matcher,
            r.actions@.take(self.action_count() as int) == self.actions@,
            forall|m: Message, s: S, me: ActorAddress, t: S, x: Result<(), String>| #[trigger] r.performs(self.action_count() as int, m, s, me, t, x) == call_ensures(ac, (&m, s, &me), (t, x)),
    {
        let deed = Deed::new(ac);
        let mut rule = self;
        rule.actions.push(deed);
        assert(rule.actions@.take(self.action_count() as int) =~= self.actions@);
        rule
    }

    /// The matcher and every action accept any message and state.
    pub closed spec fn wf(&self) -> bool {
        &&& forall|m: Message, s: S| #[trigger] self.matcher.admits(m, s)
        &&& forall|k: int, m: Message, s: S|
            0 <= k < self.actions@.len() ==> #[trigger] self.actions@[k].action.admits(m, s)
    }

    pub closed spec fn action_count(&self) -> nat {
        self.actions@.len()
    }

    /// `b` is an answer the rule's matcher may give about `m` in state `s`.
    pub closed spec fn answers(&self, m: Message, s: S, b: bool) -> bool {
        self.matcher.answers(m, s, b)
    }

    /// Action `k` of the rule, run on `m` in state `s` by the actor at `me`, may hand back
    /// state `t` and outcome `x`.
    pub closed spec fn performs(&self, k: int, m: Message, s: S, me: ActorAddress, t: S, x: Result<(), String>) -> bool {
        self.actions@[k].action.performs(m, s, me, t, x)
    }

    /// Running the rule's actions in order on `m`, by the actor at `me`, went through the
    /// states `states`: action `k` took `states[k]` and handed back `states[k + 1]`. With
    /// `Ok`, every action ran and returned `Ok`; with `Err(e)`, the actions before the last
    /// one that ran returned `Ok`, and that last one returned `Err(e)`.
    pub open spec fn ran(&self, m: Message, me: ActorAddress, states: Seq<S>, outcome: Result<(), String>) -> bool {
        &&& states.len() >= 1
        &&& forall|k: int|
            0 <= k < states.len() - 2 ==> #[trigger] self.performs(k, m, states[k], me, states[k + 1], Ok(()))
        &&& states.len() >= 2 ==> self.performs(
            states.len() - 2,
            m,
            states[states.len() - 2],
            me,
            states.last(),
            outcome,
        )
        &&& match outcome {
            Ok(()) => states.len() == self.action_count() + 1,
            Err(e) => 2 <= states.len() <= self.action_count() + 1,
        }
    }

    /// The rule takes `m` in state `s`.
    pub open spec fn takes(&self, m: Message, s: S) -> bool {
        self.answers(m, s, true)
    }

    /// The rule does not take `m` in state `s`.
    pub open spec fn refuses(&self, m: Message, s: S) -> bool {
        self.answers(m, s, false)
    }
}

/// The builder of an actor, and the actor itself once running.
#[verifier::reject_recursive_types(S)]
pub struct Actor<S> {
    state: S,
    rules: Vec<Rule<S>>,
    mailbox: Vec<Message>,
    uplinks: Vec<ActorAddress>,
    alive: bool,
}

impl<S> Actor<S> {
    pub closed spec fn state(&self) -> S {
        self.state
    }

    /// The rules, in the order they were declared.
    pub closed spec fn rules(&self) -> Seq<Rule<S>> {
        self.rules@
    }

    /// The queue of messages received and not yet consumed, oldest first.
    pub closed spec fn pending(&self) -> Seq<Message> {
        self.mailbox@
    }

    /// The addresses to notify on exit, in the order their links came.
    pub closed spec fn links(&self) -> Seq<ActorAddress> {
        self.uplinks@
    }

    pub closed spec fn alive(&self) -> bool {
        self.alive
    }

    pub open spec fn rule_count(&self) -> nat {
        self.rules().len()
    }

    /// Every rule is well formed.
    pub open spec fn wf(&self) -> bool {
        forall|j: int| 0 <= j < self.rules().len() ==> (#[trigger] self.rules()[j]).wf()
    }

    /// Rule `j` takes the message at `i` in the current state.
    pub open spec fn fires(&self, i: int, j: int) -> bool {
        self.rules()[j].takes(self.pending()[i], self.state())
    }

    /// Rule `j` does not take the message at `i` in the current state.
    pub open spec fn declines(&self, i: int, j: int) -> bool {
        self.rules()[j].refuses(self.pending()[i], self.state())
    }

    /// `(i, j)` is the first pair that fires, taking messages oldest first and, for each,
    /// the rules in the order they were declared.
    pub open spec fn first_fire(&self, i: int, j: int) -> bool {
        &&& 0 <= i < self.pending().len()
        &&& 0 <= j < self.rule_count()
        &&& self.fires(i, j)
        &&& forall|i2: int, j2: int|
            0 <= i2 < i && 0 <= j2 < self.rule_count() ==> #[trigger] self.declines(i2, j2)
        &&& forall|j2: int| 0 <= j2 < j ==> #[trigger] self.declines(i, j2)
    }

    /// No rule takes any queued message.
    pub open spec fn none_fire(&self) -> bool {
        forall|i: int, j: int|
            0 <= i < self.pending().len() && 0 <= j < self.rule_count() ==> #[trigger] self.declines(
                i,
                j,
            )
    }

    /// `i` is the oldest queued `Link` or `Shutdown`.
    pub open spec fn first_runtime(&self, i: int) -> bool {
        &&& 0 <= i < self.pending().len()
        &&& runtime_kind(self.pending()[i].kind())
        &&& forall|i2: int| 0 <= i2 < i ==> !runtime_kind(#[trigger] self.pending()[i2].kind())
    }

    /// After consuming `m`, taken from index `i` of `before`, the runtime's reaction: a `Link`
    /// adds the sender to the uplinks, a `Shutdown` notifies every uplink and stops.
    pub open spec fn reacted(
        before: Actor<S>,
        i: int,
        m: Message,
        after: Actor<S>,
        notes: Seq<Envelope>,
        me: ActorAddress,
    ) -> bool {
        if m.kind() == MessageType::Shutdown {
            &&& !after.alive()
            &&& after.pending().len() == 0
            &&& after.links() == before.links()
            &&& exit_notices(notes, before.links(), me, MessageDatum::Void)
        } else {
            &&& after.alive()
            &&& after.pending() == before.pending().remove(i)
            &&& after.links() == (if m.kind() == MessageType::Link {
                before.links().push(m.origin())
            } else {
                before.links()
            })
            &&& notes.len() == 0
        }
    }
}

impl<S> Actor<S> {
    /// What one dispatch step from `before` to `after` did, given its result `r` and the
    /// notices `notes` it produced for the actor at `me`.
    pub open spec fn stepped(
        before: Actor<S>,
        after: Actor<S>,
        r: Step,
        notes: Seq<Envelope>,
        me: ActorAddress,
    ) -> bool {
        &&& after.rules() == before.rules()
        &&& match r {
            Step::Handled { index, rule } => {
                &&& before.alive()
                &&& before.first_fire(index as int, rule as int)
                &&& exists|states: Seq<S>| {
                    &&& before.rules()[rule as int].ran(before.pending()[index as int], me, states, Ok(()))
                    &&& states[0] == before.state()
                    &&& states.last() == after.state()
                }
                &&& Self::reacted(before, index as int, before.pending()[index as int], after, notes, me)
            },
            Step::System { index } => {
                &&& before.alive()
                &&& before.none_fire()
                &&& before.first_runtime(index as int)
                &&& after.state() == before.state()
                &&& Self::reacted(before, index as int, before.pending()[index as int], after, notes, me)
            },
            Step::Crashed { index, rule, reason } => {
                &&& before.alive()
                &&& before.first_fire(index as int, rule as int)
                &&& exists|states: Seq<S>| {
                    &&& before.rules()[rule as int].ran(before.pending()[index as int], me, states, Err(reason))
                    &&& states[0] == before.state()
                    &&& states.last() == after.state()
                }
                &&& !after.alive()
                &&& after.pending().len() == 0
                &&& after.links() == before.links()
                &&& exit_notices(notes, before.links(), me, MessageDatum::Str(reason))
            },
            Step::Idle => {
                &&& before.alive() ==> before.none_fire() && before.quiet()
                &&& after == before
                &&& notes.len() == 0
            },
        }
    }

    /// `trace` is a run of the actor at `me`: each actor in it follows from the one before
    /// by one dispatch step.
    pub open spec fn steps(trace: Seq<Actor<S>>, me: ActorAddress) -> bool {
        &&& trace.len() >= 1
        &&& forall|k: int| 0 <= k < trace.len() - 1 ==> Self::step_between(#[trigger] trace[k], trace[k + 1], me)
    }

    /// Some dispatch step of the actor at `me` leads from `before` to `after`.
    pub open spec fn step_between(before: Actor<S>, after: Actor<S>, me: ActorAddress) -> bool {
        exists|r: Step, notes: Seq<Envelope>| #[trigger] Self::stepped(before, after, r, notes, me)
    }

    /// No `Link` or `Shutdown` is queued.
    pub open spec fn quiet(&self) -> bool {
        forall|i: int| 0 <= i < self.pending().len() ==> !runtime_kind(#[trigger] self.pending()[i].kind())
    }

    /// The first pair (message, rule) that fires, if any.
    fn find_match(&self) -> (r: Option<(usize, usize)>)
        requires
            self.wf(),
        ensures
            match r {
                Some((i, j)) => self.first_fire(i as int, j as int),
                None => self.none_fire(),
            },
    {
        let mut i: usize = 0;
        while i < self.mailbox.len()
            invariant
                self.wf(),
                0 <= i <= self.pending().len(),
                forall|i2: int, j2: int|
                    0 <= i2 < i && 0 <= j2 < self.rule_count() ==> #[trigger] self.declines(i2, j2),
            decreases self.mailbox.len() - i,
        {
            let mut j: usize = 0;
            while j < self.rules.len()
                invariant
                    self.wf(),
                    0 <= i < self.pending().len(),
                    0 <= j <= self.rule_count(),
                    forall|i2: int, j2: int|
                        0 <= i2 < i && 0 <= j2 < self.rule_count() ==> #[trigger] self.declines(i2, j2),
                    forall|j2: int| 0 <= j2 < j ==> #[trigger] self.declines(i as int, j2),
                decreases self.rules.len() - j,
            {
                assert(self.rules()[j as int].wf());
                if self.rules[j].matcher.matches(&self.mailbox[i], &self.state) {
                    return Some((i, j));
                }
                j += 1;
            }
            i += 1;
        }
        None
    }

    /// The oldest queued `Link` or `Shutdown`, if any.
    fn find_runtime(&self) -> (r: Option<usize>)
        ensures
            match r {
                Some(i) => self.first_runtime(i as int),
                None => self.quiet(),
            },
    {
        let mut i: usize = 0;
        while i < self.mailbox.len()
            invariant
                0 <= i <= self.pending().len(),
                forall|i2: int| 0 <= i2 < i ==> !runtime_kind(#[trigger] self.pending()[i2].kind()),
            decreases self.mailbox.len() - i,
        {
            match self.mailbox[i].get_type() {
                MessageType::Link | MessageType::Shutdown => {
                    return Some(i);
                },
                _ => {},
            }
            i += 1;
        }
        None
    }

    /// One `Exited` from `me` for each uplink, in order, with a `Void` datum when there is
    /// no reason and a `Str` datum holding it otherwise.
    fn exit_notes(&self, me: &ActorAddress, reason: Option<&String>) -> (r: Vec<Envelope>)
        ensures
            exit_notices(
                r@,
                self.links(),
                *me,
                match reason {
                    None => MessageDatum::Void,
                    Some(s) => MessageDatum::Str(*s),
                },
            ),
    {
        let mut notes: Vec<Envelope> = Vec::new();
        let mut k: usize = 0;
        while k < self.uplinks.len()
            invariant
                0 <= k <= self.links().len(),
                exit_notices(
                    notes@,
                    self.links().take(k as int),
                    *me,
                    match reason {
                        None => MessageDatum::Void,
                        Some(s) => MessageDatum::Str(*s),
                    },
                ),
            decreases self.uplinks.len() - k,
        {
            let datum = match reason {
                None => MessageDatum::Void,
                Some(s) => MessageDatum::Str(s.clone()),
            };
            let message = Message::compose(MessageType::Exited, me.clone(), datum);
            notes.push(Envelope { to: self.uplinks[k].clone(), message });
            k += 1;
            assert(self.links().take(k as int) =~= self.links().take(k - 1).push(self.links()[k - 1]));
        }
        assert(self.links().take(k as int) =~= self.links());
        notes
    }

    /// The runtime's reaction to `m`, already taken off the queue.
    fn react(&mut self, m: &Message, me: &ActorAddress) -> (notes: Vec<Envelope>)
        requires
            old(self).alive(),
        ensures
            final(self).rules() == old(self).rules(),
            final(self).state() == old(self).state(),
            if m.kind() == MessageType::Shutdown {
                &&& !final(self).alive()
                &&& final(self).pending().len() == 0
                &&& final(self).links() == old(self).links()
                &&& exit_notices(notes@, old(self).links(), *me, MessageDatum::Void)
            } else {
                &&& final(self).alive()
                &&& final(self).pending() == old(self).pending()
                &&& final(self).links() == (if m.kind() == MessageType::Link {
                    old(self).links().push(m.origin())
                } else {
                    old(self).links()
                })
                &&& notes@.len() == 0
            },
    {
        match m.get_type() {
            MessageType::Link => {
                self.uplinks.push(m.get_sender().clone());
                Vec::new()
            },
            MessageType::Shutdown => {
                let notes = self.exit_notes(me, None);
                self.alive = false;
                self.mailbox = Vec::new();
                notes
            },
            _ => Vec::new(),
        }
    }

    /// Runs the actions of rule `j` on `m` in order, stopping at the first failure.
    fn run_rule(&mut self, j: usize, m: &Message, me: &ActorAddress) -> (r: Result<(), String>) where
        S: Default,

        requires
            old(self).wf(),
            j < old(self).rule_count(),
        ensures
            final(self).rules() == old(self).rules(),
            final(self).pending() == old(self).pending(),
            final(self).links() == old(self).links(),
            final(self).alive() == old(self).alive(),
            exists|states: Seq<S>| {
                &&& old(self).rules()[j as int].ran(*m, *me, states, r)
                &&& states[0] == old(self).state()
                &&& states.last() == final(self).state()
            },
    {
        let ghost rule = self.rules()[j as int];
        let ghost mut states: Seq<S> = seq![self.state];
        let mut k: usize = 0;
        while k < self.rules[j].actions.len()
            invariant
                self.wf(),
                j < self.rule_count(),
                self.rules() == old(self).rules(),
                self.pending() == old(self).pending(),
                self.links() == old(self).links(),
                self.alive() == old(self).alive(),
                rule == self.rules()[j as int],
                k <= rule.action_count(),
                states.len() == k + 1,
                states[0] == old(self).state(),
                states.last() == self.state(),
                forall|i: int|
                    0 <= i < k ==> #[trigger] rule.performs(i, *m, states[i], *me, states[i + 1], Ok(())),
            decreases self.rules()[j as int].action_count() - k,
        {
            assert(self.rules()[j as int].wf());
            let ghost prev = states;
            let mut current = S::default();
            std::mem::swap(&mut current, &mut self.state);
            let (next, outcome) = self.rules[j].actions[k].action.perform(m, current, me);
            self.state = next;
            proof {
                assert(rule.performs(k as int, *m, prev[k as int], *me, self.state(), outcome));
                states = prev.push(next);
                assert forall|i: int| 0 <= i < k implies #[trigger] rule.performs(i, *m, states[i], *me, states[i + 1], Ok(())) by {
                    assert(states[i] == prev[i] && states[i + 1] == prev[i + 1]);
                }
            }
            let ghost result = outcome;
            match outcome {
                Err(e) => {
                    assert(states.last() == states[k as int + 1]);
                    assert(rule.ran(*m, *me, states, Err(e)));
                    return Err(e);
                },
                Ok(()) => {},
            }
            proof {
                assert(states[k as int] == prev[k as int]);
                assert(states[k as int + 1] == self.state());
                lemma_unit_ok(result);
                assert(rule.performs(k as int, *m, states[k as int], *me, states[k as int + 1], Ok(())));
            }
            k += 1;
        }
        if k > 0 {
            let ghost last = k - 1;
            assert(rule.performs(last, *m, states[last], *me, states[last + 1], Ok(())));
            assert(states.last() == states[k as int]);
        }
        assert(rule.ran(*m, *me, states, Ok(())));
        Ok(())
    }

    /// Puts a received message at the back of the queue; a stopped actor drops it.
    fn deliver(&mut self, m: Message)
        ensures
            final(self).rules() == old(self).rules(),
            final(self).state() == old(self).state(),
            final(self).links() == old(self).links(),
            final(self).alive() == old(self).alive(),
            final(self).pending() == (if old(self).alive() {
                old(self).pending().push(m)
            } else {
                old(self).pending()
            }),
    {
        if self.alive {
            self.mailbox.push(m);
        }
    }

    /// One dispatch step for the actor whose address is `me`.
    ///
    /// The oldest queued message that some rule takes is consumed by the first rule, in
    /// declared order, that takes it: its actions run in order, each handed the state the
    /// one before it returned, and the state is what the last one returned; then the
    /// runtime reacts to the message's kind. When no rule takes anything, the oldest `Link` or `Shutdown` is
    /// consumed by the runtime alone. A failing action stops the actor at once, dropping
    /// the queue. The result holds the `Exited` notices for the uplinks when the actor
    /// stopped.
    pub fn step(&mut self, me: &ActorAddress) -> (r: (Step, Vec<Envelope>)) where
        S: Default,

        requires
            old(self).wf(),
        ensures
            final(self).wf(),
            Self::stepped(*old(self), *final(self), r.0, r.1@, *me),
    {
        if !self.alive {
            return (Step::Idle, Vec::new());
        }
        match self.find_match() {
            Some((i, j)) => {
                let ghost before = *self;
                let m = self.mailbox.remove(i);
                let ghost removed = *self;
                let outcome = self.run_rule(j, &m, me);
                assert(removed.rules() == before.rules());
                assert(m == before.pending()[i as int]);
                let ghost states = choose|states: Seq<S>| {
                    &&& removed.rules()[j as int].ran(m, *me, states, outcome)
                    &&& states[0] == removed.state()
                    &&& states.last() == self.state()
                };
                let ghost res = outcome;
                match outcome {
                    Ok(()) => {
                        proof {
                            lemma_unit_ok(res);
                        }
                        let notes = self.react(&m, me);
                        assert(Self::reacted(before, i as int, before.pending()[i as int], *self, notes@, *me));
                        assert(before.rules()[j as int].ran(before.pending()[i as int], *me, states, Ok(())));
                        assert(states[0] == before.state() && states.last() == self.state());
                        (Step::Handled { index: i, rule: j }, notes)
                    },
                    Err(reason) => {
                        let notes = self.exit_notes(me, Some(&reason));
                        self.alive = false;
                        self.mailbox = Vec::new();
                        assert(before.rules()[j as int].ran(before.pending()[i as int], *me, states, Err(reason)));
                        assert(states[0] == before.state() && states.last() == self.state());
                        (Step::Crashed { index: i, rule: j, reason }, notes)
                    },
                }
            },
            None => {
                assert(self.wf());
                match self.find_runtime() {
                    Some(i) => {
                        let ghost before = *self;
                        let m = self.mailbox.remove(i);
                        let notes = self.react(&m, me);
                        assert(Self::reacted(before, i as int, before.pending()[i as int], *self, notes@, *me));
                        assert(self.rules() == before.rules());
                        (Step::System { index: i }, notes)
                    },
                    None => (Step::Idle, Vec::new()),
                }
            },
        }
    }
}

impl<S: Default> Actor<S> {
    /// An actor with the default state, no rules, nothing queued and no uplinks.
    pub fn new() -> (r: Self)
        ensures
            call_ensures(S::default, (), r.state()),
            r.wf(),
            r.alive(),
            r.rule_count() == 0,
            r.pending().len() == 0,
            r.links().len() == 0,
    {
        Actor {
            state: S::default(),
            rules: Vec::new(),
            mailbox: Vec::new(),
            uplinks: Vec::new(),
            alive: true,
        }
    }
}

impl<S> Actor<S> {
    /// An actor in the imperative style: `handler` sees every message, in the order they
    /// are queued, and the runtime reacts to `Link` and `Shutdown` after it.
    pub fn from_handler<T: Fn(&Message, S, &ActorAddress) -> (S, Result<(), String>) + Send + 'static>(
        state: S,
        handler: T,
    ) -> (r: Self)
        requires
            forall|m: Message, s: S, me: ActorAddress| call_requires(handler, (&m, s, &me)),
        ensures
            r.wf(),
            r.alive(),
            r.state() == state,
            r.rule_count() == 1,
            r.rules()[0].action_count() == 1,
            forall|m: Message, s: S| !(#[trigger] r.rules()[0].refuses(m, s)),
            forall|m: Message, s: S, me: ActorAddress, t: S, x: Result<(), String>|
                #[trigger] r.rules()[0].performs(0, m, s, me, t, x) == call_ensures(handler, (&m, s, &me), (t, x)),
            r.pending().len() == 0,
            r.links().len() == 0,
    {
        let takes_all = |m: &Message, s: &S| -> (b: bool)
            ensures
                b,
            { true };
        let empty = Actor { state, rules: Vec::new(), mailbox: Vec::new(), uplinks: Vec::new(), alive: true };
        let a = empty.with_match(takes_all).with_action(handler);
        assert forall|m: Message, s: S| !(#[trigger] a.rules()[0].refuses(m, s)) by {
            assert(a.rules()[0].answers(m, s, false) == call_ensures(takes_all, (&m, &s), false));
        }
        a
    }

    /// Replaces the initial state.
    pub fn with_state(self, state: S) -> (r: Self)
        ensures
            r.state() == state,
            r.rules() == self.rules(),
            r.pending() == self.pending(),
            r.links() == self.links(),
            r.alive() == self.alive(),
    {
        let mut a = self;
        a.state = state;
        a
    }

    /// Adds a rule with the given matcher and, for now, no actions.
    pub fn with_match<T: Fn(&Message, &S) -> bool + Send + 'static>(self, mc: T) -> (r: Self)
        requires
            self.wf(),
            forall|m: Message, s: S| call_requires(mc, (&m, &s)),
        ensures
            r.wf(),
            r.rule_count() == self.rule_count() + 1,
            r.rules().take(self.rule_count() as int) == self.rules(),
            r.rules().last().action_count() == 0,
            forall|m: Message, s: S, b: bool| #[trigger] r.rules().last().answers(m, s, b) == call_ensures(mc, (&m, &s), b),
            r.state() == self.state(),
            r.pending() == self.pending(),
            r.links() == self.links(),
            r.alive() == self.alive(),
    {
        let mut a = self;
        let rule = Rule::new(mc);
        a.rules.push(rule);
        assert(a.rules().take(self.rule_count() as int) =~= self.rules());
        a
    }

    /// Adds an action to the rule declared last.
    pub fn with_action<T: Fn(&Message, S, &ActorAddress) -> (S, Result<(), String>) + Send + 'static>(
        self,
        ac: T,
    ) -> (r: Self)
        requires
            self.wf(),
            self.rule_count() > 0,
            forall|m: Message, s: S, me: ActorAddress| call_requires(ac, (&m, s, &me)),
        ensures
            r.wf(),
            r.rule_count() == self.rule_count(),
            r.rules().take(self.rule_count() - 1) == self.rules().take(self.rule_count() - 1),
            r.rules().last().action_count() == self.rules().last().action_count() + 1,
            forall|m: Message, s: S, b: bool| #[trigger] r.rules().last().answers(m, s, b) == self.rules().last().answers(m, s, b),
            forall|k: int, m: Message, s: S, me: ActorAddress, t: S, x: Result<(), String>|
                0 <= k < self.rules().last().action_count() ==> #[trigger] r.rules().last().performs(k, m, s, me, t, x)
                    == self.rules().last().performs(k, m, s, me, t, x),
            forall|m: Message, s: S, me: ActorAddress, t: S, x: Result<(), String>|
                #[trigger] r.rules().last().performs(self.rules().last().action_count() as int, m, s, me, t, x)
                    == call_ensures(ac, (&m, s, &me), (t, x)),
            r.state() == self.state(),
            r.pending() == self.pending(),
            r.links() == self.links(),
            r.alive() == self.alive(),
    {
        let mut a = self;
        let rule = a.rules.pop().unwrap();
        let ghost old_rule = rule;
        let rule = rule.followed_by(ac);
        proof {
            assert forall|k: int, m: Message, s: S, me: ActorAddress, t: S, x: Result<(), String>|
                0 <= k < old_rule.action_count() implies #[trigger] rule.performs(k, m, s, me, t, x)
                    == old_rule.performs(k, m, s, me, t, x) by {
                assert(rule.actions@[k] == rule.actions@.take(old_rule.action_count() as int)[k]);
            }
        }
        a.rules.push(rule);
        assert(a.rules().take(self.rule_count() - 1) =~= self.rules().take(self.rule_count() - 1));
        a
    }
}

/// Relies on `Receiver::recv`: waits for the oldest message of the mailbox; `None` once
/// every send end is gone and nothing is left.
#[verifier::external_body]
fn take_next(rx: &Receiver<Message>) -> Option<Message> {
    rx.recv().ok()
}

/// Relies on `Receiver::try_recv`: the oldest message of the mailbox, if one is there now.
#[verifier::external_body]
fn take_ready(rx: &Receiver<Message>) -> Option<Message> {
    rx.try_recv().ok()
}

/// A spawned actor: the actor, its own address and the receiving end of its mailbox.
/// Something has to drive it: call `step` and the receive functions, or `run_until_idle`.
#[verifier::reject_recursive_types(S)]
pub struct ActorProcess<S> {
    actor: Actor<S>,
    address: ActorAddress,
    inbox: Receiver<Message>,
}

impl<S> Actor<S> {
    /// Starts the actor: makes its mailbox and address and queues `Init`.
    pub fn spawn(self) -> (r: ActorProcess<S>)
        requires
            self.wf(),
        ensures
            r.wf(),
            r.actor().rules() == self.rules(),
            r.actor().state() == self.state(),
            r.actor().links() == self.links(),
            r.actor().alive() == self.alive(),
            r.actor().pending().len() == self.pending().len() + 1,
            r.actor().pending().take(self.pending().len() as int) == self.pending(),
            r.actor().pending().last().kind() == MessageType::Init,
            r.actor().pending().last().payload() == MessageDatum::Void,
            r.actor().pending().last().origin().id() & 0xF000C000000000000000 == 0x40008000000000000000,
    {
        let (tx, rx) = open_channel();
        let mut actor = self;
        actor.mailbox.push(Message::system(MessageType::Init).build());
        assert(actor.pending().take(self.pending().len() as int) =~= self.pending());
        assert(actor.rules() == self.rules());
        ActorProcess { actor, address: ActorAddress::new(tx), inbox: rx }
    }

    /// Starts the actor as `spawn` does and queues, right behind `Init`, a `Link` from
    /// `uplink`, so that the link is in place before anything else can arrive.
    pub fn spawn_link(self, uplink: &ActorAddress) -> (r: ActorProcess<S>)
        requires
            self.wf(),
        ensures
            r.wf(),
            r.actor().rules() == self.rules(),
            r.actor().state() == self.state(),
            r.actor().links() == self.links(),
            r.actor().alive() == self.alive(),
            r.actor().pending().len() == self.pending().len() + 2,
            r.actor().pending().take(self.pending().len() as int) == self.pending(),
            r.actor().pending()[self.pending().len() as int].kind() == MessageType::Init,
            r.actor().pending()[self.pending().len() as int].payload() == MessageDatum::Void,
            r.actor().pending()[self.pending().len() as int].origin().id() & 0xF000C000000000000000
                == 0x40008000000000000000,
            r.actor().pending().last().kind() == MessageType::Link,
            r.actor().pending().last().origin() == *uplink,
            r.actor().pending().last().payload() == MessageDatum::Void,
    {
        let p = self.spawn();
        let ActorProcess { actor, address, inbox } = p;
        let mut actor = actor;
        let ghost before = actor.pending();
        actor.mailbox.push(Message::compose(MessageType::Link, uplink.clone(), MessageDatum::Void));
        assert(actor.pending().take(self.pending().len() as int) =~= before.take(
            self.pending().len() as int,
        ));
        ActorProcess { actor, address, inbox }
    }
}

impl<S> ActorProcess<S> {
    pub closed spec fn actor(&self) -> Actor<S> {
        self.actor
    }

    /// The address of the actor.
    pub closed spec fn me(&self) -> ActorAddress {
        self.address
    }

    pub open spec fn wf(&self) -> bool {
        self.actor().wf()
    }

    /// The address to send to this actor.
    pub fn address(&self) -> (r: &ActorAddress)
        ensures
            *r == self.me(),
    {
        &self.address
    }

    /// The actor's current state.
    pub fn state(&self) -> (r: &S)
        ensures
            *r == self.actor().state(),
    {
        &self.actor.state
    }

    /// Whether the actor has not stopped yet.
    pub fn is_running(&self) -> (r: bool)
        ensures
            r == self.actor().alive(),
    {
        self.actor.alive
    }

    /// One dispatch step (see `Actor::step`); the `Exited` notices it yields are sent.
    pub fn step(&mut self) -> (r: Step) where
        S: Default,

        requires
            old(self).wf(),
        ensures
            final(self).wf(),
            final(self).me() == old(self).me(),
            exists|notes: Seq<Envelope>| Actor::stepped(old(self).actor(), final(self).actor(), r, notes, old(self).me()),
    {
        let (r, notes) = self.actor.step(&self.address);
        send_all(&notes);
        assert(Actor::stepped(old(self).actor(), self.actor(), r, notes@, old(self).me()));
        r
    }

    /// Waits for the next message of the mailbox and queues it; false when none can come.
    ///
    /// A driver should step until idle before it receives (as `run_until_idle` then
    /// `receive` does): then the `Link` queued by `spawn_link` is handled before anything a
    /// third party sends can reach a rule.
    pub fn receive(&mut self) -> (r: bool)
        ensures
            final(self).me() == old(self).me(),
            final(self).actor().rules() == old(self).actor().rules(),
            final(self).actor().state() == old(self).actor().state(),
            final(self).actor().links() == old(self).actor().links(),
            final(self).actor().alive() == old(self).actor().alive(),
            r && old(self).actor().alive() ==> exists|m: Message| final(self).actor().pending() == old(self).actor().pending().push(m),
            !r || !old(self).actor().alive() ==> final(self).actor().pending() == old(self).actor().pending(),
    {
        match take_next(&self.inbox) {
            Some(m) => {
                self.actor.deliver(m);
                true
            },
            None => false,
        }
    }

    /// Queues the next message of the mailbox if one is already there; false otherwise.
    pub fn try_receive(&mut self) -> (r: bool)
        ensures
            final(self).me() == old(self).me(),
            final(self).actor().rules() == old(self).actor().rules(),
            final(self).actor().state() == old(self).actor().state(),
            final(self).actor().links() == old(self).actor().links(),
            final(self).actor().alive() == old(self).actor().alive(),
            r && old(self).actor().alive() ==> exists|m: Message| final(self).actor().pending() == old(self).actor().pending().push(m),
            !r || !old(self).actor().alive() ==> final(self).actor().pending() == old(self).actor().pending(),
    {
        match take_ready(&self.inbox) {
            Some(m) => {
                self.actor.deliver(m);
                true
            },
            None => false,
        }
    }

    /// Steps until nothing queued can be handled; returns whether the actor still runs.
    /// When it does, no rule takes any queued message and no `Link` or `Shutdown` waits.
    pub fn run_until_idle(&mut self) -> (r: bool) where
        S: Default,

        requires
            old(self).wf(),
        ensures
            final(self).wf(),
            final(self).me() == old(self).me(),
            final(self).actor().rules() == old(self).actor().rules(),
            r == final(self).actor().alive(),
            r ==> final(self).actor().none_fire() && final(self).actor().quiet(),
            exists|trace: Seq<Actor<S>>| {
                &&& Actor::steps(trace, old(self).me())
                &&& trace[0] == old(self).actor()
                &&& trace.last() == final(self).actor()
            },
    {
        let ghost mut trace: Seq<Actor<S>> = seq![self.actor()];
        loop
            invariant
                self.wf(),
                self.me() == old(self).me(),
                self.actor().rules() == old(self).actor().rules(),
                Actor::steps(trace, old(self).me()),
                trace[0] == old(self).actor(),
                trace.last() == self.actor(),
            decreases self.actor().pending().len() + (if self.actor().alive() { 1int } else { 0 }),
        {
            let ghost prev = trace;
            let r = self.step();
            proof {
                trace = prev.push(self.actor());
                assert forall|k: int| 0 <= k < trace.len() - 1 implies Actor::step_between(
                    #[trigger] trace[k],
                    trace[k + 1],
                    old(self).me(),
                ) by {
                    if k < prev.len() - 1 {
                        assert(trace[k] == prev[k] && trace[k + 1] == prev[k + 1]);
                        assert(Actor::step_between(prev[k], prev[k + 1], old(self).me()));
                    } else {
                        assert(trace[k] == prev.last() && trace[k + 1] == self.actor());
                    }
                }
            }
            if let Step::Idle = r {
                return self.actor.alive;
            }
        }
    }
}

/// Messages are offered to the rules oldest first: a step consumes a message only when no
/// rule takes any older one. With the mailbox's FIFO order and `receive` queueing at the
/// back, messages from one sender are handled in the order it sent them, and `Init`, queued
/// first at spawn, is the first message any rule can see.
pub proof fn lemma_oldest_first<S>(
    before: Actor<S>,
    after: Actor<S>,
    r: Step,
    notes: Seq<Envelope>,
    me: ActorAddress,
)
    requires
        Actor::stepped(before, after, r, notes, me),
    ensures
        match r {
            Step::Handled { index, rule } => forall|i: int, j: int|
                0 <= i < index && 0 <= j < before.rule_count() ==> #[trigger] before.declines(i, j),
            Step::Crashed { index, rule, reason } => forall|i: int, j: int|
                0 <= i < index && 0 <= j < before.rule_count() ==> #[trigger] before.declines(i, j),
            Step::System { index } => forall|i: int, j: int|
                0 <= i < before.pending().len() && 0 <= j < before.rule_count()
                    ==> #[trigger] before.declines(i, j),
            Step::Idle => true,
        },
{
}

/// Of the rules that take the consumed message, the first one declared is the one whose
/// actions ran: a rule declared earlier than the one that ran had refused the message.
pub proof fn lemma_first_rule_wins<S>(
    before: Actor<S>,
    after: Actor<S>,
    index: usize,
    rule: usize,
    notes: Seq<Envelope>,
    me: ActorAddress,
    earlier: int,
)
    requires
        Actor::stepped(before, after, Step::Handled { index, rule }, notes, me),
        0 <= earlier < rule,
    ensures
        before.declines(index as int, earlier),
{
}

/// When a step stops an actor, normally or by a failing action, every accepted link gets
/// exactly one `Exited` from it: the notices match the uplinks one for one, in order,
/// with a `Void` datum after `Shutdown` and the reason after a failure.
pub proof fn lemma_one_exit_per_link<S>(
    before: Actor<S>,
    after: Actor<S>,
    r: Step,
    notes: Seq<Envelope>,
    me: ActorAddress,
)
    requires
        Actor::stepped(before, after, r, notes, me),
        before.alive(),
        !after.alive(),
    ensures
        notes.len() == before.links().len(),
        notes.map_values(|e: Envelope| e.to) == before.links(),
        forall|k: int|
            0 <= k < notes.len() ==> {
                &&& (#[trigger] notes[k]).to == before.links()[k]
                &&& notes[k].message.kind() == MessageType::Exited
                &&& notes[k].message.origin() == me
                &&& notes[k].message.payload() == (match r {
                    Step::Crashed { index, rule, reason } => MessageDatum::Str(reason),
                    _ => MessageDatum::Void,
                })
            },
{
    assert(notes.map_values(|e: Envelope| e.to) =~= before.links());
}

/// Once an actor has stopped, a step does nothing and sends nothing, so whatever is sent
/// to it after its `Shutdown` has no effect.
pub proof fn lemma_stopped_is_inert<S>(
    before: Actor<S>,
    after: Actor<S>,
    r: Step,
    notes: Seq<Envelope>,
    me: ActorAddress,
)
    requires
        Actor::stepped(before, after, r, notes, me),
        !before.alive(),
    ensures
        r is Idle,
        after == before,
        notes.len() == 0,
{
}

/// While an actor runs, its uplinks only grow: every actor of a run that is still alive
/// holds, in front, the uplinks the run started with.
pub proof fn lemma_links_grow<S>(trace: Seq<Actor<S>>, me: ActorAddress, j: int)
    requires
        Actor::steps(trace, me),
        0 <= j < trace.len(),
        trace[j].alive(),
    ensures
        trace[0].links().is_prefix_of(trace[j].links()),
    decreases j,
{
    if j > 0 {
        assert(Actor::step_between(trace[j - 1], trace[j], me));
        let (r, notes) = choose|r: Step, notes: Seq<Envelope>| #[trigger] Actor::stepped(trace[j - 1], trace[j], r, notes, me);
        if !trace[j - 1].alive() {
            lemma_stopped_is_inert(trace[j - 1], trace[j], r, notes, me);
        } else {
            lemma_links_grow(trace, me, j - 1);
            let m = trace[j - 1].links();
            let n = trace[j].links();
            assert(m.is_prefix_of(n)) by {
                if n != m {
                    assert(n == m.push(n.last()));
                    assert forall|i: int| 0 <= i < m.len() implies m[i] == n[i] by {}
                }
            }
        }
    }
}

/// Over a whole run that starts with a running actor and ends with it stopped, exactly one
/// step stops it, and that step sends exactly one `Exited` from `me` to each uplink the
/// actor holds then, in order; among those are all the uplinks the run started with.
pub proof fn lemma_run_notifies_links<S>(trace: Seq<Actor<S>>, me: ActorAddress, i: int) -> (k: int)
    requires
        Actor::steps(trace, me),
        0 <= i < trace.len(),
        trace[i].alive(),
        !trace.last().alive(),
    ensures
        i <= k < trace.len() - 1,
        trace[k].alive(),
        !trace[k + 1].alive(),
        trace[0].links().is_prefix_of(trace[k].links()),
        exists|r: Step, notes: Seq<Envelope>| {
            &&& #[trigger] Actor::stepped(trace[k], trace[k + 1], r, notes, me)
            &&& notes.len() == trace[k].links().len()
            &&& forall|q: int|
                0 <= q < notes.len() ==> {
                    &&& (#[trigger] notes[q]).to == trace[k].links()[q]
                    &&& notes[q].message.kind() == MessageType::Exited
                    &&& notes[q].message.origin() == me
                }
        },
    decreases trace.len() - i,
{
    if trace[i + 1].alive() {
        lemma_run_notifies_links(trace, me, i + 1)
    } else {
        lemma_links_grow(trace, me, i);
        assert(Actor::step_between(trace[i], trace[i + 1], me));
        let (r, notes) = choose|r: Step, notes: Seq<Envelope>| #[trigger] Actor::stepped(trace[i], trace[i + 1], r, notes, me);
        lemma_one_exit_per_link(trace[i], trace[i + 1], r, notes, me);
        i
    }
}

/// `Init`, which `spawn` queues at the front of an actor built with `Actor::new`, is the
/// first message any rule sees: while it heads the queue, a step consumes a later message
/// only when every rule refused `Init`.
pub proof fn lemma_init_first<S>(
    before: Actor<S>,
    after: Actor<S>,
    r: Step,
    notes: Seq<Envelope>,
    me: ActorAddress,
)
    requires
        Actor::stepped(before, after, r, notes, me),
        before.pending().len() > 0,
        before.pending()[0].kind() == MessageType::Init,
    ensures
        match r {
            Step::Handled { index, rule } => index > 0 ==> forall|j: int|
                0 <= j < before.rule_count() ==> #[trigger] before.declines(0, j),
            Step::Crashed { index, rule, reason } => index > 0 ==> forall|j: int|
                0 <= j < before.rule_count() ==> #[trigger] before.declines(0, j),
            _ => true,
        },
{
}
} // verus!
