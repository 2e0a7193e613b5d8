use mecha::{Actor, ActorAddress, ActorProcess, Message, MessageDatum, MessageType, Stateless};
use std::collections::HashMap;
use std::sync::mpsc;

/// Handles whatever is in the actor's mailbox now; returns whether it still runs.
fn drain<S: Default>(p: &mut ActorProcess<S>) -> bool {
    loop {
        if !p.run_until_idle() {
            return false;
        }
        if !p.try_receive() {
            return true;
        }
    }
}

#[test]
fn basic_test() {
    let (tx, rx) = mpsc::channel();
    let initiator = ActorAddress::new(tx.clone());

    let mut worker = Actor::new()
        .with_state(Stateless)
        .with_match(|msg: &Message, _: &Stateless| match *msg.get_type() {
            MessageType::Custom(_) => true,
            _ => false,
        })
        .with_action(|msg: &Message, s: Stateless, _: &ActorAddress| {
            println!("{:?}", msg.get_type());
            (s, Ok(()))
        })
        .spawn_link(&initiator);
    let w = worker.address().clone();

    Message::custom("blah").with_sender(&initiator).send_to(&w);
    Message::custom("blah").with_sender(&initiator).with_i64(-123).send_to(&w);
    Message::custom("blah").with_sender(&initiator).with_u64(456).send_to(&w);
    Message::custom("blah")
        .with_sender(&initiator)
        .with_f64_bits(123.456f64.to_bits())
        .send_to(&w);
    Message::custom("blah").with_sender(&initiator).with_str("Hello!").send_to(&w);
    Message::custom("blah").with_sender(&initiator).with_map(HashMap::new()).send_to(&w);
    Message::custom("blah").with_sender(&initiator).with_act(&initiator).send_to(&w);

    assert!(drain(&mut worker));
    Message::shutdown().with_sender(&initiator).send_to(&w);
    assert!(!drain(&mut worker));

    let msg = rx.recv().unwrap();
    assert_eq!(*msg.get_type(), MessageType::Exited);
    match *msg.get_datum() {
        MessageDatum::Void => (),
        _ => {
            assert!(false, "Unexpected message datum");
        }
    }
}

#[derive(Default)]
struct CounterState {
    active: bool,
    count: i32,
}

const INC: &'static str = ":inc";
const ACTIVATE: &'static str = ":activate";

fn match_inc(m: &Message, state: &CounterState) -> bool {
    match *m.get_type() {
        MessageType::Custom(INC) => state.active,
        _ => false,
    }
}

fn do_inc(_: &Message, mut state: CounterState, _: &ActorAddress) -> (CounterState, Result<(), String>) {
    state.count += 1;
    println!("The new count is {}", state.count);
    (state, Ok(()))
}

fn match_activate(m: &Message, _: &CounterState) -> bool {
    match *m.get_type() {
        MessageType::Custom(ACTIVATE) => true,
        _ => false,
    }
}

fn do_activate(_: &Message, mut state: CounterState, _: &ActorAddress) -> (CounterState, Result<(), String>) {
    state.active = true;
    println!("Actor activated!");
    (state, Ok(()))
}

#[test]
fn test_stateful() {
    let (tx, rx) = mpsc::channel();
    let initiator = ActorAddress::new(tx);

    let mut worker = Actor::new()
        .with_state(CounterState { active: false, count: 0 })
        .with_match(match_inc)
        .with_action(do_inc)
        .with_match(match_activate)
        .with_action(do_activate)
        .spawn_link(&initiator);
    let w = worker.address().clone();

    // Let's increment it three times.
    Message::custom(INC).send_to(&w);
    Message::custom(INC).send_to(&w);
    Message::custom(INC).send_to(&w);
    assert!(drain(&mut worker));
    // Nothing is really happening so far, we must also activate the actor.
    assert_eq!(worker.state().count, 0);
    Message::custom(ACTIVATE).send_to(&w);
    // The queued increments run before this shutdown.
    Message::shutdown().send_to(&w);
    assert!(!drain(&mut worker));
    assert_eq!(worker.state().count, 3);

    // Now wait for the actor to send the Exited message back to us
    let msg = rx.recv().unwrap();
    assert_eq!(*msg.get_type(), MessageType::Exited);
    match *msg.get_datum() {
        MessageDatum::Void => {
            println!("Actor exited cleanly.");
        }
        _ => {
            panic!("Actor must have exited with an error.");
        }
    }
}

const GREET: &'static str = ":greet";
const PRAISE: &'static str = ":praise";
const CELEBRATE: &'static str = ":celebrate";

fn custom_is(msg: &Message, tag: &'static str) -> bool {
    match *msg.get_type() {
        MessageType::Custom(t) => t == tag,
        _ => false,
    }
}

#[test]
fn test_talker() {
    let (tx, rx) = mpsc::channel();
    let initiator = ActorAddress::new(tx.clone());

    let mut worker = Actor::new()
        .with_state(Stateless)
        .with_match(|msg: &Message, _: &Stateless| custom_is(msg, GREET))
        .with_action(|msg: &Message, s: Stateless, _: &ActorAddress| {
            println!("Hello {}", msg.get_datum().as_str().unwrap());
            (s, Ok(()))
        })
        .with_match(|msg: &Message, _: &Stateless| custom_is(msg, PRAISE))
        .with_action(|msg: &Message, s: Stateless, _: &ActorAddress| {
            println!("{}, you're amazing", msg.get_datum().as_str().unwrap());
            (s, Ok(()))
        })
        .with_match(|msg: &Message, _: &Stateless| custom_is(msg, CELEBRATE))
        .with_action(|msg: &Message, s: Stateless, _: &ActorAddress| {
            let map = msg.get_datum().as_map().unwrap();
            println!(
                "Here's to another {} years, {}",
                map.get("age").unwrap().as_i64().unwrap(),
                map.get("name").unwrap().as_str().unwrap()
            );
            (s, Ok(()))
        })
        .spawn_link(&initiator);
    let w = worker.address().clone();

    Message::custom(GREET).with_sender(&initiator).with_str("Huey").send_to(&w);
    Message::custom(PRAISE).with_sender(&initiator).with_str("Dewey").send_to(&w);
    let mut map = HashMap::new();
    map.insert("age".to_string(), MessageDatum::from(16i64));
    map.insert("name".to_string(), MessageDatum::from("Louie".to_string()));
    Message::custom(CELEBRATE).with_sender(&initiator).with_map(map).send_to(&w);

    assert!(drain(&mut worker));
    Message::shutdown().with_sender(&initiator).send_to(&w);
    assert!(!drain(&mut worker));

    let msg = rx.recv().unwrap();
    assert_eq!(*msg.get_type(), MessageType::Exited);
    match *msg.get_datum() {
        MessageDatum::Void => (),
        _ => {
            assert!(false, "Unexpected message datum");
        }
    }
}

#[derive(Default)]
struct CountState {
    count: i64,
}

const COUNT: &'static str = ":count";
const COUNT_ACK: &'static str = ":count_ack";

/// Without threads, the caller drives the counter itself after each request.
struct CounterApi {
    process: ActorProcess<CountState>,
    counter: ActorAddress,
}

impl CounterApi {
    fn new(parent: &ActorAddress) -> CounterApi {
        let process = Actor::new()
            .with_state(CountState { count: 0 })
            .with_match(|msg: &Message, _: &CountState| custom_is(msg, COUNT))
            .with_action(|msg: &Message, mut state: CountState, myself: &ActorAddress| {
                state.count += 1;
                Message::custom(COUNT_ACK)
                    .with_sender(myself)
                    .with_i64(state.count)
                    .send_to(msg.get_sender());
                (state, Ok(()))
            })
            .spawn_link(parent);
        let counter = process.address().clone();
        CounterApi { process, counter }
    }

    fn next(&mut self) -> i64 {
        let (tx, rx) = mpsc::channel();
        let initiator = ActorAddress::new(tx);
        Message::custom(COUNT).with_sender(&initiator).send_to(&self.counter);
        drain(&mut self.process);
        rx.recv().unwrap().get_datum().as_i64().unwrap()
    }

    fn shutdown(&mut self) {
        Message::shutdown().send_to(&self.counter);
        drain(&mut self.process);
    }
}

#[test]
fn test_counter() {
    let (tx, rx) = mpsc::channel();
    let initiator = ActorAddress::new(tx.clone());

    let mut capi = CounterApi::new(&initiator);

    assert_eq!(capi.next(), 1i64);
    assert_eq!(capi.next(), 2i64);
    assert_eq!(capi.next(), 3i64);

    capi.shutdown();

    let msg = rx.recv().unwrap();
    assert_eq!(*msg.get_type(), MessageType::Exited);
    match *msg.get_datum() {
        MessageDatum::Void => (),
        _ => {
            assert!(false, "Unexpected message datum");
        }
    }
}
