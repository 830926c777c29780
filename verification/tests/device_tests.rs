use treat_dispenser::channel::TreatChannel;
use treat_dispenser::device::launch;
use treat_dispenser::servo::{Command, Phase, Servo};
use treat_dispenser::session::{Broker, Reply, Request, Session, TOPIC};

const BROKER: Broker = Broker { host: "broker.local", user: "dispenser", password: "biscuit" };

/// What comes of everything that brings a session up.
const COMING_UP: [Reply<'static>; 5] = [
    Reply::Link { up: true },
    Reply::Resolved { addresses: &[[10, 0, 0, 1]] },
    Reply::SocketOpened,
    Reply::BrokerJoined,
    Reply::TopicSubscribed,
];

fn listening() -> (TreatChannel, Session, Servo) {
    let (mut channel, mut session, servo) = launch(BROKER);
    for reply in COMING_UP {
        session.step(&mut channel, reply).unwrap();
    }
    (channel, session, servo)
}

fn tell(channel: &mut TreatChannel, session: &mut Session, count: u32) {
    let payload = format!("{}", count);
    let message = Reply::Message { topic: TOPIC, payload: payload.as_bytes() };
    assert!(session.accepts(&message));
    session.step(channel, message).unwrap();
}

/// Lets the servo work until it rests, and says how many treats came out.
fn catch_up(channel: &mut TreatChannel, servo: &mut Servo) -> u32 {
    let mut treats = 0;
    loop {
        match servo.step(channel) {
            Command::Rest { .. } => return treats,
            Command::Release => treats += 1,
            Command::SetUp { .. } | Command::Drive { .. } => {}
        }
    }
}

#[test]
fn both_tasks_have_their_place() {
    let (mut channel, session, servo) = launch(BROKER);
    assert_eq!((session.reader, session.writer), (0, 0));
    assert_eq!((servo.reader, servo.writer), (1, 1));
    assert!(matches!(session.pending, Request::CheckLink));
    assert_eq!(session.broker, BROKER);
    assert_eq!(servo.phase, Phase::SettingUp);
    assert_eq!(channel.take(1), None);
    assert_eq!(channel.take(0), Some(0));
    assert_eq!(channel.subscribe(), None);
    assert_eq!(channel.register(), None);
}

#[test]
fn every_increment_dispenses_one_treat() {
    let (mut channel, mut session, mut servo) = listening();
    assert_eq!(catch_up(&mut channel, &mut servo), 0);
    for count in 1..=20 {
        tell(&mut channel, &mut session, count);
        assert_eq!(catch_up(&mut channel, &mut servo), 1);
        assert_eq!(servo.last_treat_count, count);
    }
}

#[test]
fn increments_that_come_during_a_sweep_are_dispensed_after_it() {
    let (mut channel, mut session, mut servo) = listening();
    tell(&mut channel, &mut session, 1);
    servo.step(&mut channel);
    tell(&mut channel, &mut session, 2);
    servo.step(&mut channel);
    tell(&mut channel, &mut session, 3);
    assert_eq!(catch_up(&mut channel, &mut servo), 3);
}

#[test]
fn no_increment_is_lost_on_a_slow_servo() {
    let (mut channel, mut session, mut servo) = listening();
    for count in 1..=5 {
        tell(&mut channel, &mut session, count);
    }
    assert_eq!(catch_up(&mut channel, &mut servo), 5);
    tell(&mut channel, &mut session, 6);
    assert_eq!(catch_up(&mut channel, &mut servo), 1);
    assert_eq!(servo.last_treat_count, 6);
}

#[test]
fn an_increment_after_a_repeated_count_dispenses_a_treat() {
    let (mut channel, mut session, mut servo) = listening();
    tell(&mut channel, &mut session, 1);
    tell(&mut channel, &mut session, 1);
    assert_eq!(catch_up(&mut channel, &mut servo), 1);
    tell(&mut channel, &mut session, 2);
    assert!(matches!(session.pending, Request::ReceiveMessage));
    assert_eq!(catch_up(&mut channel, &mut servo), 1);
}

#[test]
fn it_does_not_matter_which_task_starts_first() {
    let mut channel = TreatChannel::new();
    let mut servo = Servo::start(&mut channel).unwrap();
    let mut session = Session::start(&mut channel, BROKER).unwrap();
    session.pending = Request::ReceiveMessage;
    tell(&mut channel, &mut session, 1);
    assert_eq!(catch_up(&mut channel, &mut servo), 0);
    assert_eq!(catch_up(&mut channel, &mut servo), 1);
    tell(&mut channel, &mut session, 2);
    assert_eq!(catch_up(&mut channel, &mut servo), 1);
}

#[test]
fn announced_counts_rise_over_lost_connections() {
    let (mut channel, mut session, servo) = listening();
    for counts in [[1, 1, 2], [2, 1, 5], [5, 5, 6]] {
        for count in counts {
            tell(&mut channel, &mut session, count);
        }
        session.step(&mut channel, Reply::ReceiveFailed).unwrap();
        for reply in COMING_UP {
            assert!(session.accepts(&reply));
            session.step(&mut channel, reply).unwrap();
            match session.pending {
                Request::ResolveHost { host } => assert_eq!(host, "broker.local"),
                Request::JoinBroker { options } => {
                    assert_eq!((options.user, options.password), ("dispenser", "biscuit"));
                }
                _ => {}
            }
        }
    }
    let mut announced = vec![];
    while let Some(count) = channel.take(servo.reader) {
        announced.push(count);
    }
    assert_eq!(announced, vec![1, 2, 5, 6]);
}

#[test]
fn the_pin_is_set_up_by_the_first_step_alone() {
    let (mut channel, mut session, mut servo) = listening();
    tell(&mut channel, &mut session, 1);
    assert!(matches!(servo.step(&mut channel), Command::SetUp { .. }));
    for _ in 0..4_000 {
        assert!(!matches!(servo.step(&mut channel), Command::SetUp { .. }));
    }
    assert_eq!(servo.last_treat_count, 1);
}
