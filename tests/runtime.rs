use mecha::{Actor, ActorAddress, ActorProcess, Message, MessageDatum, MessageType, Step};
use std::collections::HashMap;
use std::sync::mpsc;

#[derive(Default)]
struct Nothing;

#[derive(Default)]
struct Seen {
    kinds: Vec<MessageType>,
    count: i64,
}

fn drain<S: Default>(p: &mut ActorProcess<S>) -> bool {
    loop {
        if !p.run_until_idle() {
            return false;
        }
        if !p.try_receive() {
            return true;
        }
    }
}

fn is_custom(m: &Message) -> bool {
    matches!(*m.get_type(), MessageType::Custom(_))
}

/// An actor that sends every custom message back to its sender.
fn echo() -> Actor<Nothing> {
    Actor::new()
        .with_state(Nothing)
        .with_match(|m: &Message, _: &Nothing| is_custom(m))
        .with_action(|m: &Message, s: Nothing, me: &ActorAddress| {
            if let MessageType::Custom(tag) = *m.get_type() {
                Message::custom(tag)
                    .with_sender(me)
                    .with_datum(m.get_datum().clone())
                    .send_to(m.get_sender());
            }
            (s, Ok(()))
        })
}

#[test]
fn echo_round_trip() {
    let (tx, rx) = mpsc::channel();
    let driver = ActorAddress::new(tx);
    let mut p = echo().spawn_link(&driver);
    let a = p.address().clone();
    Message::custom("t").with_sender(&driver).with_i64(-123).send_to(&a);
    Message::shutdown().send_to(&a);
    assert!(!drain(&mut p));

    let first = rx.try_recv().unwrap();
    assert_eq!(*first.get_type(), MessageType::Custom("t"));
    assert_eq!(first.get_datum().as_i64(), Some(-123));
    assert!(first.get_sender().same_actor(&a));
    let second = rx.try_recv().unwrap();
    assert_eq!(*second.get_type(), MessageType::Exited);
    assert!(matches!(*second.get_datum(), MessageDatum::Void));
    assert!(second.get_sender().same_actor(&a));
    assert!(rx.try_recv().is_err());
}

#[test]
fn fifo_preservation() {
    let (tx, rx) = mpsc::channel();
    let driver = ActorAddress::new(tx);
    let mut p = echo().spawn_link(&driver);
    let a = p.address().clone();
    for i in 1..=1000i64 {
        Message::custom("x").with_sender(&driver).with_i64(i).send_to(&a);
    }
    Message::shutdown().send_to(&a);
    assert!(!drain(&mut p));
    for i in 1..=1000i64 {
        let m = rx.try_recv().unwrap();
        assert_eq!(*m.get_type(), MessageType::Custom("x"));
        assert_eq!(m.get_datum().as_i64(), Some(i));
    }
    assert_eq!(*rx.try_recv().unwrap().get_type(), MessageType::Exited);
}

#[derive(Default)]
struct Gate {
    active: bool,
    count: i32,
}

#[test]
fn counter_with_gate() {
    let (tx, rx) = mpsc::channel();
    let driver = ActorAddress::new(tx);
    let mut p = Actor::new()
        .with_state(Gate { active: false, count: 0 })
        .with_match(|m: &Message, s: &Gate| *m.get_type() == MessageType::Custom(":inc") && s.active)
        .with_action(|_: &Message, mut s: Gate, _: &ActorAddress| {
            s.count += 1;
            (s, Ok(()))
        })
        .with_match(|m: &Message, _: &Gate| *m.get_type() == MessageType::Custom(":activate"))
        .with_action(|_: &Message, mut s: Gate, _: &ActorAddress| {
            s.active = true;
            (s, Ok(()))
        })
        .spawn_link(&driver);
    let a = p.address().clone();
    for _ in 0..3 {
        Message::custom(":inc").send_to(&a);
    }
    Message::custom(":activate").send_to(&a);
    Message::shutdown().send_to(&a);
    assert!(!drain(&mut p));
    assert_eq!(p.state().count, 3);
    let m = rx.try_recv().unwrap();
    assert_eq!(*m.get_type(), MessageType::Exited);
    assert!(matches!(*m.get_datum(), MessageDatum::Void));
}

#[test]
fn link_after_spawn() {
    let (tx, rx) = mpsc::channel();
    let fake = ActorAddress::new(tx);
    let mut p = echo().spawn();
    let a = p.address().clone();
    Message::link().with_sender(&fake).send_to(&a);
    Message::shutdown().send_to(&a);
    assert!(!drain(&mut p));
    let m = rx.try_recv().unwrap();
    assert_eq!(*m.get_type(), MessageType::Exited);
    assert!(matches!(*m.get_datum(), MessageDatum::Void));
    assert!(rx.try_recv().is_err());
}

#[test]
fn linked_twice_gets_two_exits() {
    let (tx, rx) = mpsc::channel();
    let fake = ActorAddress::new(tx);
    let mut p = echo().spawn_link(&fake);
    let a = p.address().clone();
    Message::link().with_sender(&fake).send_to(&a);
    Message::shutdown().send_to(&a);
    assert!(!drain(&mut p));
    assert_eq!(*rx.try_recv().unwrap().get_type(), MessageType::Exited);
    assert_eq!(*rx.try_recv().unwrap().get_type(), MessageType::Exited);
    assert!(rx.try_recv().is_err());
}

#[test]
fn crash_propagation() {
    let (tx, rx) = mpsc::channel();
    let fake = ActorAddress::new(tx);
    let mut p = Actor::new()
        .with_state(Nothing)
        .with_match(|m: &Message, _: &Nothing| is_custom(m))
        .with_action(|_: &Message, s: Nothing, _: &ActorAddress| (s, Err("boom".to_string())))
        .spawn_link(&fake);
    let a = p.address().clone();
    Message::custom("go").send_to(&a);
    Message::custom("never").send_to(&a);
    assert!(!drain(&mut p));
    let m = rx.try_recv().unwrap();
    assert_eq!(*m.get_type(), MessageType::Exited);
    assert_eq!(m.get_datum().as_str(), Some("boom".to_string()));
    assert!(m.get_sender().same_actor(&a));
    assert!(rx.try_recv().is_err());
}

#[test]
fn crash_step_reports_rule_and_reason() {
    let mut p = Actor::new()
        .with_state(Nothing)
        .with_match(|m: &Message, _: &Nothing| is_custom(m))
        .with_action(|_: &Message, s: Nothing, _: &ActorAddress| (s, Err("bad".to_string())))
        .spawn();
    let a = p.address().clone();
    Message::custom("go").send_to(&a);
    assert!(p.try_receive());
    match p.step() {
        Step::Crashed { index, rule, reason } => {
            assert_eq!(index, 1);
            assert_eq!(rule, 0);
            assert_eq!(reason, "bad");
        }
        _ => panic!("the action should have failed"),
    }
    assert!(!p.is_running());
    assert!(matches!(p.step(), Step::Idle));
}

fn recorder() -> Actor<Seen> {
    Actor::new()
        .with_state(Seen::default())
        .with_match(|_: &Message, _: &Seen| true)
        .with_action(|m: &Message, mut s: Seen, _: &ActorAddress| {
            s.kinds.push(*m.get_type());
            (s, Ok(()))
        })
}

#[test]
fn init_is_observed_first() {
    let mut p = recorder().spawn();
    let a = p.address().clone();
    Message::custom("a").send_to(&a);
    assert!(drain(&mut p));
    assert_eq!(p.state().kinds, vec![MessageType::Init, MessageType::Custom("a")]);
}

#[test]
fn spawn_link_comes_before_other_traffic() {
    let (tx, _rx) = mpsc::channel();
    let up = ActorAddress::new(tx);
    let mut p = recorder().spawn_link(&up);
    let a = p.address().clone();
    Message::custom("a").send_to(&a);
    assert!(drain(&mut p));
    assert_eq!(
        p.state().kinds,
        vec![MessageType::Init, MessageType::Link, MessageType::Custom("a")]
    );
}

#[test]
fn first_matching_rule_wins() {
    let mut p = Actor::new()
        .with_state(Seen::default())
        .with_match(|m: &Message, _: &Seen| is_custom(m))
        .with_action(|_: &Message, mut s: Seen, _: &ActorAddress| {
            s.count += 1;
            (s, Ok(()))
        })
        .with_match(|m: &Message, _: &Seen| is_custom(m))
        .with_action(|_: &Message, mut s: Seen, _: &ActorAddress| {
            s.count += 100;
            (s, Ok(()))
        })
        .spawn();
    let a = p.address().clone();
    Message::custom("x").send_to(&a);
    assert!(p.try_receive());
    match p.step() {
        Step::Handled { index, rule } => {
            assert_eq!(index, 1);
            assert_eq!(rule, 0);
        }
        _ => panic!("the custom message should have been handled"),
    }
    assert_eq!(p.state().count, 1);
}

#[test]
fn actions_run_in_declared_order() {
    let mut p = Actor::new()
        .with_state(Seen::default())
        .with_match(|m: &Message, _: &Seen| is_custom(m))
        .with_action(|_: &Message, mut s: Seen, _: &ActorAddress| {
            s.count = s.count * 10 + 1;
            (s, Ok(()))
        })
        .with_action(|_: &Message, mut s: Seen, _: &ActorAddress| {
            s.count = s.count * 10 + 2;
            (s, Ok(()))
        })
        .spawn();
    Message::custom("x").send_to(&p.address().clone());
    assert!(drain(&mut p));
    assert_eq!(p.state().count, 12);
}

#[test]
fn runtime_handles_link_when_no_rule_matches() {
    let (tx, rx) = mpsc::channel();
    let fake = ActorAddress::new(tx);
    let mut p = echo().spawn();
    let a = p.address().clone();
    Message::link().with_sender(&fake).send_to(&a);
    assert!(p.try_receive());
    // Init waits unmatched at index 0; the Link behind it is taken by the runtime.
    assert!(matches!(p.step(), Step::System { index: 1 }));
    assert!(matches!(p.step(), Step::Idle));
    Message::shutdown().send_to(&a);
    assert!(p.try_receive());
    assert!(matches!(p.step(), Step::System { index: 1 }));
    assert!(!p.is_running());
    assert_eq!(*rx.try_recv().unwrap().get_type(), MessageType::Exited);
}

#[test]
fn sending_after_shutdown_is_a_no_op() {
    let (tx, rx) = mpsc::channel();
    let fake = ActorAddress::new(tx);
    let mut p = recorder().spawn_link(&fake);
    let a = p.address().clone();
    Message::shutdown().send_to(&a);
    Message::custom("late").send_to(&a);
    assert!(!drain(&mut p));
    let seen = p.state().kinds.len();
    Message::custom("later").send_to(&a);
    assert!(p.try_receive());
    assert!(matches!(p.step(), Step::Idle));
    assert_eq!(p.state().kinds.len(), seen);
    drop(p);
    Message::custom("after the end").send_to(&a);
    assert_eq!(*rx.try_recv().unwrap().get_type(), MessageType::Exited);
    assert!(rx.try_recv().is_err());
}

#[test]
fn unmatched_messages_wait_for_state_change() {
    let mut p = Actor::new()
        .with_state(Gate { active: false, count: 0 })
        .with_match(|m: &Message, s: &Gate| *m.get_type() == MessageType::Custom("a") && s.active)
        .with_action(|_: &Message, mut s: Gate, _: &ActorAddress| {
            s.count += 1;
            (s, Ok(()))
        })
        .spawn();
    let a = p.address().clone();
    Message::custom("a").send_to(&a);
    assert!(drain(&mut p));
    assert_eq!(p.state().count, 0);
    assert!(p.is_running());
}

#[test]
fn null_route_swallows_messages() {
    let dead = ActorAddress::null_route();
    Message::custom("x").send_to(&dead);
    let built = Message::custom("y").build();
    assert_eq!(*built.get_type(), MessageType::Custom("y"));
    assert!(matches!(*built.get_datum(), MessageDatum::Void));
    Message::custom("z").send_to(built.get_sender());
}

#[test]
fn identities_are_version_four() {
    let (tx, _rx) = mpsc::channel();
    let a = ActorAddress::new(tx.clone());
    let b = ActorAddress::new(tx);
    let mask: u128 = 0xF000C000000000000000;
    assert_eq!(a.identity() & mask, 0x40008000000000000000);
    assert_ne!(a.identity(), b.identity());
    assert!(a.same_actor(&a.clone()));
    assert!(!a.same_actor(&b));
}

#[test]
fn cloned_address_reaches_same_mailbox() {
    let (tx, rx) = mpsc::channel();
    let a = ActorAddress::new(tx);
    let c = a.clone();
    Message::custom("via clone").with_i64(7).send_to(&c);
    let m = rx.try_recv().unwrap();
    assert_eq!(*m.get_type(), MessageType::Custom("via clone"));
    assert_eq!(m.get_datum().as_i64(), Some(7));
}

#[test]
fn datum_accessors() {
    let (tx, _rx) = mpsc::channel();
    let a = ActorAddress::new(tx);
    assert_eq!(MessageDatum::I64(-5).as_i64(), Some(-5));
    assert_eq!(MessageDatum::I64(-5).as_u64(), None);
    assert_eq!(MessageDatum::U64(5).as_u64(), Some(5));
    assert_eq!(MessageDatum::F64(2.5f64.to_bits()).as_f64_bits(), Some(2.5f64.to_bits()));
    assert_eq!(MessageDatum::Str("s".to_string()).as_str(), Some("s".to_string()));
    assert_eq!(MessageDatum::Void.as_str(), None);
    let mut m = HashMap::new();
    m.insert("k".to_string(), MessageDatum::U64(1));
    let copy = MessageDatum::Dict(m).as_map().unwrap();
    assert_eq!(copy.len(), 1);
    assert_eq!(copy.get("k").unwrap().as_u64(), Some(1));
    assert!(MessageDatum::Act(a.clone()).as_act().unwrap().same_actor(&a));
    assert!(MessageDatum::Void.as_act().is_none());
}

#[test]
fn builder_keeps_last_setting() {
    let (tx, rx) = mpsc::channel();
    let to = ActorAddress::new(tx);
    let (tx2, _rx2) = mpsc::channel();
    let from = ActorAddress::new(tx2);
    Message::custom("c").with_i64(1).with_str("two").with_sender(&from).send_to(&to);
    let m = rx.try_recv().unwrap();
    assert_eq!(m.get_datum().as_str(), Some("two".to_string()));
    assert!(m.get_sender().same_actor(&from));
    let l = Message::link().build();
    assert_eq!(*l.get_type(), MessageType::Link);
    let s = Message::shutdown().build();
    assert_eq!(*s.get_type(), MessageType::Shutdown);
}

#[test]
fn datum_from_values() {
    let (tx, _rx) = mpsc::channel();
    let a = ActorAddress::new(tx);
    assert_eq!(MessageDatum::from(-4i64).as_i64(), Some(-4));
    assert_eq!(MessageDatum::from(4u64).as_u64(), Some(4));
    assert_eq!(MessageDatum::from("s".to_string()).as_str(), Some("s".to_string()));
    assert!(MessageDatum::from(HashMap::new()).as_map().unwrap().is_empty());
    assert!(MessageDatum::from(a.clone()).as_act().unwrap().same_actor(&a));
}

#[test]
fn receive_takes_a_waiting_message() {
    let mut p = recorder().spawn();
    let a = p.address().clone();
    Message::custom("one").send_to(&a);
    assert!(p.receive());
    assert!(p.run_until_idle());
    assert_eq!(p.state().kinds, vec![MessageType::Init, MessageType::Custom("one")]);
    assert!(!p.try_receive());
}

#[test]
fn imperative_handler_sees_every_message() {
    let (tx, rx) = mpsc::channel();
    let up = ActorAddress::new(tx);
    let mut p = Actor::from_handler(Seen::default(), |m: &Message, mut s: Seen, _: &ActorAddress| {
        s.kinds.push(*m.get_type());
        (s, Ok(()))
    })
    .spawn_link(&up);
    let a = p.address().clone();
    Message::custom("a").send_to(&a);
    Message::shutdown().send_to(&a);
    assert!(!drain(&mut p));
    assert_eq!(
        p.state().kinds,
        vec![MessageType::Init, MessageType::Link, MessageType::Custom("a"), MessageType::Shutdown]
    );
    assert_eq!(*rx.try_recv().unwrap().get_type(), MessageType::Exited);
}
