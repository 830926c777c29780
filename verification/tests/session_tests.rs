use treat_dispenser::channel::TreatChannel;
use treat_dispenser::count::PayloadError;
use treat_dispenser::session::{
    judge, Broker, BrokerError, ClientOptions, Endpoint, MqttVersion, QualityOfService, Reply, Request, Session, Verdict,
    MQTT_PORT, TOPIC,
};

const BROKER: Broker = Broker { host: "broker.local", user: "dispenser", password: "biscuit" };

const HOSTS: [[u8; 4]; 2] = [[192, 168, 1, 7], [192, 168, 1, 8]];

fn started() -> (TreatChannel, Session) {
    let mut channel = TreatChannel::new();
    let session = Session::start(&mut channel, BROKER).unwrap();
    (channel, session)
}

fn go(session: &mut Session, channel: &mut TreatChannel, reply: Reply) -> Result<(), PayloadError> {
    assert!(session.accepts(&reply));
    session.step(channel, reply)
}

fn listening() -> (TreatChannel, Session) {
    let (mut channel, mut session) = started();
    for reply in [
        Reply::Link { up: true },
        Reply::Resolved { addresses: &HOSTS },
        Reply::SocketOpened,
        Reply::BrokerJoined,
        Reply::TopicSubscribed,
    ] {
        go(&mut session, &mut channel, reply).unwrap();
    }
    assert!(matches!(session.pending, Request::ReceiveMessage));
    (channel, session)
}

#[test]
fn topic_and_port() {
    assert_eq!(TOPIC, "treats/dispense");
    assert_eq!(MQTT_PORT, 1883);
}

#[test]
fn starts_with_a_count_of_zero() {
    let (mut channel, session) = started();
    assert!(matches!(session.pending, Request::CheckLink));
    assert_eq!((session.reader, session.writer, session.asked), (0, 0, 0));
    assert_eq!(session.broker, BROKER);
    assert_eq!(channel.take(session.reader), Some(0));
    assert_eq!(channel.take(session.reader), None);
}

#[test]
fn does_not_start_without_a_place_in_the_channel() {
    let mut channel = TreatChannel::new();
    channel.subscribe();
    channel.subscribe();
    assert!(Session::start(&mut channel, BROKER).is_none());
    assert_eq!(channel.register(), Some(0));
    let mut channel = TreatChannel::new();
    channel.register();
    channel.register();
    assert!(Session::start(&mut channel, BROKER).is_none());
    assert_eq!(channel.subscribe(), Some(1));
}

#[test]
fn comes_up_step_by_step() {
    let (mut channel, mut session) = started();
    go(&mut session, &mut channel, Reply::Link { up: true }).unwrap();
    assert!(matches!(session.pending, Request::ResolveHost { host: "broker.local" }));
    go(&mut session, &mut channel, Reply::Resolved { addresses: &HOSTS }).unwrap();
    match session.pending {
        Request::OpenSocket { endpoint, buffer_size } => {
            assert_eq!(endpoint, Endpoint { address: [192, 168, 1, 7], port: 1883 });
            assert_eq!(buffer_size, 4096);
        }
        _ => panic!("no socket is opened"),
    }
    go(&mut session, &mut channel, Reply::SocketOpened).unwrap();
    match session.pending {
        Request::JoinBroker { options } => assert_eq!(
            options,
            ClientOptions {
                version: MqttVersion::MQTTv5,
                rng_seed: 20_000,
                max_subscribe_qos: QualityOfService::QoS1,
                user: "dispenser",
                password: "biscuit",
                max_packet_size: 100,
                buffer_size: 80,
            }
        ),
        _ => panic!("the broker is not joined"),
    }
    go(&mut session, &mut channel, Reply::BrokerJoined).unwrap();
    assert!(matches!(session.pending, Request::SubscribeTopic { topic: "treats/dispense" }));
    go(&mut session, &mut channel, Reply::TopicSubscribed).unwrap();
    assert!(matches!(session.pending, Request::ReceiveMessage));
}

#[test]
fn waits_for_a_link_that_is_down() {
    let (mut channel, mut session) = started();
    go(&mut session, &mut channel, Reply::Link { up: false }).unwrap();
    assert!(matches!(session.pending, Request::Pause { millis: 5_000 }));
    go(&mut session, &mut channel, Reply::Elapsed).unwrap();
    assert!(matches!(session.pending, Request::CheckLink));
}

#[test]
fn starts_over_where_something_fails() {
    let successes = [
        Reply::Link { up: true },
        Reply::Resolved { addresses: &HOSTS },
        Reply::SocketOpened,
        Reply::BrokerJoined,
        Reply::TopicSubscribed,
    ];
    let failures = [
        (1, Reply::ResolveFailed, false),
        (2, Reply::SocketFailed, false),
        (3, Reply::BrokerFailed { error: BrokerError::Network }, true),
        (3, Reply::BrokerFailed { error: BrokerError::Other }, true),
        (4, Reply::SubscribeFailed, false),
        (5, Reply::ReceiveFailed, false),
    ];
    for (after, failure, pauses) in failures {
        let (mut channel, mut session) = started();
        for reply in &successes[..after] {
            go(&mut session, &mut channel, *reply).unwrap();
        }
        go(&mut session, &mut channel, failure).unwrap();
        if pauses {
            assert!(matches!(session.pending, Request::Pause { millis: 5_000 }));
            go(&mut session, &mut channel, Reply::Elapsed).unwrap();
        }
        assert!(matches!(session.pending, Request::CheckLink));
        assert_eq!(channel.take(session.reader), Some(0));
    }
}

#[test]
fn only_an_answer_is_accepted() {
    let (_, session) = started();
    assert!(session.accepts(&Reply::Link { up: false }));
    assert!(!session.accepts(&Reply::Elapsed));
    assert!(!session.accepts(&Reply::BrokerJoined));
    let resolving = Session { pending: Request::ResolveHost { host: "broker.local" }, ..session };
    assert!(resolving.accepts(&Reply::Resolved { addresses: &HOSTS }));
    assert!(!resolving.accepts(&Reply::Resolved { addresses: &[] }));
}

#[test]
fn messages_are_judged() {
    assert_eq!(judge(4, "", b"5"), Ok(Verdict::Ignore));
    assert_eq!(judge(4, "", b"nonsense"), Ok(Verdict::Ignore));
    assert_eq!(judge(4, "t", b"5"), Ok(Verdict::Announce { count: 5 }));
    assert_eq!(judge(4, "t", b"400"), Ok(Verdict::Announce { count: 400 }));
    assert_eq!(judge(4, "t", b"4"), Ok(Verdict::Ignore));
    assert_eq!(judge(4, "t", b"3"), Ok(Verdict::Ignore));
    assert_eq!(judge(4, "t", b"nonsense"), Err(PayloadError::NotACount));
    assert_eq!(judge(4, "t", &[0xff]), Err(PayloadError::NotUtf8));
}

#[test]
fn a_higher_count_is_announced() {
    let (mut channel, mut session) = listening();
    let reader = channel.subscribe().unwrap();
    go(&mut session, &mut channel, Reply::Message { topic: TOPIC, payload: b"1" }).unwrap();
    assert!(matches!(session.pending, Request::ReceiveMessage));
    go(&mut session, &mut channel, Reply::Message { topic: TOPIC, payload: b"2" }).unwrap();
    assert!(matches!(session.pending, Request::ReceiveMessage));
    assert_eq!(channel.take(reader), Some(1));
    assert_eq!(channel.take(reader), Some(2));
    assert_eq!(channel.take(reader), None);
    assert_eq!(channel.take(session.reader), Some(2));
    assert_eq!(channel.take(session.reader), None);
}

/// Everything that a reader of the channel finds announced.
fn announced(channel: &mut TreatChannel, reader: usize) -> Vec<u32> {
    let mut counts = vec![];
    while let Some(count) = channel.take(reader) {
        counts.push(count);
    }
    counts
}

#[test]
fn a_count_that_comes_twice_is_announced_once_and_the_next_one_too() {
    let mut channel = TreatChannel::new();
    let reader = channel.subscribe().unwrap();
    let mut session = Session::start(&mut channel, BROKER).unwrap();
    session.pending = Request::ReceiveMessage;
    for payload in [b"1", b"1", b"2"] {
        go(&mut session, &mut channel, Reply::Message { topic: TOPIC, payload }).unwrap();
        assert!(matches!(session.pending, Request::ReceiveMessage));
    }
    assert_eq!(session.asked, 2);
    assert_eq!(announced(&mut channel, reader), vec![0, 1, 2]);
}

#[test]
fn a_lower_count_is_passed_over() {
    let (mut channel, mut session) = listening();
    let reader = channel.subscribe().unwrap();
    for payload in [b"5", b"3", b"4", b"5", b"6"] {
        go(&mut session, &mut channel, Reply::Message { topic: TOPIC, payload }).unwrap();
    }
    assert_eq!(announced(&mut channel, reader), vec![5, 6]);
}

#[test]
fn a_message_without_a_topic_is_passed_over() {
    let (mut channel, mut session) = listening();
    let reader = channel.subscribe().unwrap();
    go(&mut session, &mut channel, Reply::Message { topic: "", payload: b"9" }).unwrap();
    assert!(matches!(session.pending, Request::ReceiveMessage));
    go(&mut session, &mut channel, Reply::Message { topic: TOPIC, payload: b"1" }).unwrap();
    assert_eq!(announced(&mut channel, reader), vec![1]);
}

#[test]
fn the_count_outlives_the_connection() {
    let (mut channel, mut session) = listening();
    let reader = channel.subscribe().unwrap();
    go(&mut session, &mut channel, Reply::Message { topic: TOPIC, payload: b"5" }).unwrap();
    go(&mut session, &mut channel, Reply::ReceiveFailed).unwrap();
    for reply in [
        Reply::Link { up: true },
        Reply::Resolved { addresses: &HOSTS },
        Reply::SocketOpened,
        Reply::BrokerJoined,
        Reply::TopicSubscribed,
        Reply::Message { topic: TOPIC, payload: b"5" },
        Reply::Message { topic: TOPIC, payload: b"6" },
    ] {
        go(&mut session, &mut channel, reply).unwrap();
    }
    assert_eq!(announced(&mut channel, reader), vec![5, 6]);
}

#[test]
fn a_payload_without_a_count_is_an_error() {
    let (mut channel, mut session) = listening();
    let message = Reply::Message { topic: TOPIC, payload: b"treat" };
    assert_eq!(go(&mut session, &mut channel, message), Err(PayloadError::NotACount));
    assert!(matches!(session.pending, Request::ReceiveMessage));
    assert_eq!(channel.take(session.reader), None);
    let (mut channel, mut session) = listening();
    let message = Reply::Message { topic: TOPIC, payload: &[0xc0, 0x80] };
    assert_eq!(go(&mut session, &mut channel, message), Err(PayloadError::NotUtf8));
}
