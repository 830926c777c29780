//! The task that listens to the broker: it brings a session up, takes the counts that
//! arrive on the topic and announces each that is higher than the one before.

use crate::channel::TreatChannel;
use crate::count::{parse_count, PayloadError};
use vstd::prelude::*;

verus! {

/// The topic whose integer value is the number of treats asked for.
pub const TOPIC: &'static str = "treats/dispense";

/// The port that the broker listens on.
pub const MQTT_PORT: u16 = 1883;

/// How long the task waits, in milliseconds, before it tries again.
pub const RETRY_DURATION: u32 = 5_000;

/// The largest packet that the client tells the broker to send.
pub const MAX_PACKET_SIZE: u32 = 100;

/// The size of the client's buffers, in bytes.
pub const BUFFER_SIZE: usize = 80;

/// The size of the socket's buffers, in bytes.
pub const SOCKET_BUFFER_SIZE: usize = 4096;

/// Where the client's counting source of identifiers begins.
pub const RNG_SEED: u64 = 20_000;

/// Where the broker is, and who the device is to it.
#[derive(Debug, Clone, Copy, PartialEq, Eq)]
pub struct Broker {
    pub host: &'static str,
    pub user: &'static str,
    pub password: &'static str,
}

/// The versions of the protocol.
#[derive(Debug, Clone, Copy, PartialEq, Eq, Structural)]
pub enum MqttVersion {
    MQTTv3,
    MQTTv5,
}

/// How sure the delivery of a message is.
#[derive(Debug, Clone, Copy, PartialEq, Eq, Structural)]
pub enum QualityOfService {
    QoS0,
    QoS1,
    QoS2,
}

/// How a client joins the broker.
#[derive(Debug, Clone, Copy, PartialEq, Eq)]
pub struct ClientOptions {
    pub version: MqttVersion,
    /// Where the client's counting source of identifiers begins.
    pub rng_seed: u64,
    /// The best quality of service that is subscribed with.
    pub max_subscribe_qos: QualityOfService,
    pub user: &'static str,
    pub password: &'static str,
    /// The largest packet that the broker is told to send.
    pub max_packet_size: u32,
    /// The size of the buffer for what is sent, and of that for what is received.
    pub buffer_size: usize,
}

/// An IPv4 address and a port.
#[derive(Debug, Clone, Copy, PartialEq, Eq)]
pub struct Endpoint {
    pub address: [u8; 4],
    pub port: u16,
}

/// Why the broker could not be joined.
#[derive(Debug, Clone, Copy, PartialEq, Eq, Structural)]
pub enum BrokerError {
    /// The network failed.
    Network,
    /// Anything else, such as a refusal.
    Other,
}

/// What the firmware is to do next.
#[derive(Debug, Clone, Copy)]
pub enum Request {
    /// See whether the network link is up.
    CheckLink,
    /// Look up the IPv4 addresses of a host.
    ResolveHost { host: &'static str },
    /// Open a connection, with buffers of this size for either direction.
    OpenSocket { endpoint: Endpoint, buffer_size: usize },
    /// Join the broker over the open connection.
    JoinBroker { options: ClientOptions },
    /// Subscribe to a topic.
    SubscribeTopic { topic: &'static str },
    /// Wait for a message.
    ReceiveMessage,
    /// Wait for this many milliseconds.
    Pause { millis: u32 },
}

/// What came of it.
#[derive(Debug, Clone, Copy)]
pub enum Reply<'a> {
    Link { up: bool },
    Resolved { addresses: &'a [[u8; 4]] },
    ResolveFailed,
    SocketOpened,
    SocketFailed,
    BrokerJoined,
    BrokerFailed { error: BrokerError },
    TopicSubscribed,
    SubscribeFailed,
    Message { topic: &'a str, payload: &'a [u8] },
    ReceiveFailed,
    Elapsed,
}

/// What a message leads to.
#[derive(Debug, Clone, Copy, PartialEq, Eq, Structural)]
pub enum Verdict {
    /// There is nothing new in the message.
    Ignore,
    /// The message asks for more treats than were asked for so far.
    Announce { count: u32 },
}

/// Whether a reply is one to the request.
pub open spec fn is_reply(request: Request, reply: Reply) -> bool {
    match request {
        Request::CheckLink => reply is Link,
        Request::ResolveHost { .. } => reply is Resolved || reply is ResolveFailed,
        Request::OpenSocket { .. } => reply is SocketOpened || reply is SocketFailed,
        Request::JoinBroker { .. } => reply is BrokerJoined || reply is BrokerFailed,
        Request::SubscribeTopic { .. } => reply is TopicSubscribed || reply is SubscribeFailed,
        Request::ReceiveMessage => reply is Message || reply is ReceiveFailed,
        Request::Pause { .. } => reply is Elapsed,
    }
}

/// The count that a message is held against: the one that the task takes from its
/// backlog, or, where there is none to take, the one that it went by last.
pub open spec fn held(asked: u32, backlog: Seq<u32>) -> u32 {
    match crate::channel::head(backlog) {
        Some(count) => count,
        None => asked,
    }
}

/// What a message leads to, where `asked` is the count that was asked for so far. A topic
/// without a name carries no count; a payload that should carry one and does not is an
/// error.
pub open spec fn verdict(asked: u32, topic: Seq<char>, payload: Seq<u8>) -> Result<
    Verdict,
    PayloadError,
> {
    if topic.len() == 0 {
        Ok(Verdict::Ignore)
    } else {
        match crate::count::count_of(payload) {
            Err(error) => Err(error),
            Ok(count) => if count > asked {
                Ok(Verdict::Announce { count })
            } else {
                Ok(Verdict::Ignore)
            },
        }
    }
}

/// How a client joins the broker.
pub open spec fn client_options(broker: Broker) -> ClientOptions {
    ClientOptions {
        version: MqttVersion::MQTTv5,
        rng_seed: RNG_SEED,
        max_subscribe_qos: QualityOfService::QoS1,
        user: broker.user,
        password: broker.password,
        max_packet_size: MAX_PACKET_SIZE,
        buffer_size: BUFFER_SIZE,
    }
}

/// The request that follows a reply other than a message.
pub open spec fn follow_up(broker: Broker, reply: Reply) -> Request {
    match reply {
        Reply::Link { up } => if up {
            Request::ResolveHost { host: broker.host }
        } else {
            Request::Pause { millis: RETRY_DURATION }
        },
        Reply::Resolved { addresses } => Request::OpenSocket {
            endpoint: Endpoint { address: addresses@[0], port: MQTT_PORT },
            buffer_size: SOCKET_BUFFER_SIZE,
        },
        Reply::SocketOpened => Request::JoinBroker { options: client_options(broker) },
        Reply::BrokerJoined => Request::SubscribeTopic { topic: TOPIC },
        Reply::BrokerFailed { .. } => Request::Pause { millis: RETRY_DURATION },
        Reply::TopicSubscribed => Request::ReceiveMessage,
        _ => Request::CheckLink,
    }
}

/// Holds a message against the count that was asked for so far.
pub fn judge(asked: u32, topic: &str, payload: &[u8]) -> (result: Result<Verdict, PayloadError>)
    ensures
        result == verdict(asked, topic@, payload@),
{
    if topic.is_empty() {
        Ok(Verdict::Ignore)
    } else {
        match parse_count(payload) {
            Err(error) => Err(error),
            Ok(count) => if count > asked {
                Ok(Verdict::Announce { count })
            } else {
                Ok(Verdict::Ignore)
            },
        }
    }
}

/// The session's task.
#[derive(Debug, Clone, Copy)]
pub struct Session {
    /// Its place among the channel's readers.
    pub reader: usize,
    /// Its place among the channel's writers.
    pub writer: usize,
    pub broker: Broker,
    /// The highest count that it knows to have been asked for.
    pub asked: u32,
    /// What it waits for an answer to.
    pub pending: Request,
}

impl Session {
    /// A message, with the channel's backlogs: what the task is afterwards, and what they
    /// are. The task has taken its own count, and has announced that of the message if it
    /// is higher; either way it knows the higher of the two.
    pub open spec fn heard(
        self,
        backlogs: Seq<Seq<u32>>,
        topic: Seq<char>,
        payload: Seq<u8>,
    ) -> (Session, Seq<Seq<u32>>) {
        let asked = held(self.asked, backlogs[self.reader as int]);
        let left = crate::channel::taken(backlogs, self.reader as int);
        match verdict(asked, topic, payload) {
            Ok(Verdict::Announce { count }) => (
                Session { asked: count, ..self },
                crate::channel::announced(left, count),
            ),
            _ => (Session { asked, ..self }, left),
        }
    }

    /// Subscribes to the channel and registers as a writer, announces that no treats have
    /// been asked for, and begins with a look at the link. `None` if the channel has no
    /// room for another reader, or none for another writer.
    pub fn start(channel: &mut TreatChannel, broker: Broker) -> (session: Option<Session>)
        requires
            old(channel).wf(),
        ensures
            final(channel).wf(),
            session is Some <==> old(channel)@.len() < crate::channel::READERS
                && old(channel).writers() < crate::channel::WRITERS,
            session matches Some(task) ==> {
                &&& task.reader == old(channel)@.len()
                &&& task.writer == old(channel).writers()
                &&& task.broker == broker
                &&& task.asked == 0
                &&& task.pending is CheckLink
                &&& final(channel)@ == crate::channel::announced(
                    old(channel)@.push(Seq::empty()),
                    0,
                )
                &&& final(channel).writers() == old(channel).writers() + 1
            },
            session is None ==> {
                &&& final(channel)@ == if old(channel)@.len() < crate::channel::READERS {
                    old(channel)@.push(Seq::empty())
                } else {
                    old(channel)@
                }
                &&& final(channel).writers() == old(channel).writers()
            },
    {
        match channel.subscribe() {
            None => None,
            Some(reader) => match channel.register() {
                None => None,
                Some(writer) => {
                    channel.announce(writer, 0);
                    Some(Session { reader, writer, broker, asked: 0, pending: Request::CheckLink })
                },
            },
        }
    }

    /// Whether the task can go on with this reply: it is one to its request, and a host
    /// that was found has an address.
    pub open spec fn accepts_spec(self, reply: Reply) -> bool {
        &&& is_reply(self.pending, reply)
        &&& reply matches Reply::Resolved { addresses } ==> addresses@.len() > 0
    }

    /// Whether the task can go on with this reply.
    pub fn accepts(&self, reply: &Reply) -> (accepted: bool)
        ensures
            accepted == self.accepts_spec(*reply),
    {
        match (self.pending, *reply) {
            (Request::CheckLink, Reply::Link { .. }) => true,
            (Request::ResolveHost { .. }, Reply::Resolved { addresses }) => addresses.len() > 0,
            (Request::ResolveHost { .. }, Reply::ResolveFailed) => true,
            (Request::OpenSocket { .. }, Reply::SocketOpened) => true,
            (Request::OpenSocket { .. }, Reply::SocketFailed) => true,
            (Request::JoinBroker { .. }, Reply::BrokerJoined) => true,
            (Request::JoinBroker { .. }, Reply::BrokerFailed { .. }) => true,
            (Request::SubscribeTopic { .. }, Reply::TopicSubscribed) => true,
            (Request::SubscribeTopic { .. }, Reply::SubscribeFailed) => true,
            (Request::ReceiveMessage, Reply::Message { .. }) => true,
            (Request::ReceiveMessage, Reply::ReceiveFailed) => true,
            (Request::Pause { .. }, Reply::Elapsed) => true,
            _ => false,
        }
    }

    /// Goes on with what came of the pending request, and settles on the next one.
    ///
    /// A message is held against the count that was asked for so far, which the task
    /// keeps, and the next message is waited for. An error says that the payload holds no
    /// count.
    pub fn step(&mut self, channel: &mut TreatChannel, reply: Reply) -> (result: Result<
        (),
        PayloadError,
    >)
        requires
            old(self).accepts_spec(reply),
            old(channel).wf(),
            old(self).reader < old(channel)@.len(),
            old(self).writer < old(channel).writers(),
        ensures
            final(channel).wf(),
            final(channel).writers() == old(channel).writers(),
            reply matches Reply::Message { topic, payload } ==> {
                let asked = held(old(self).asked, old(channel)@[old(self).reader as int]);
                &&& (*final(self), final(channel)@) == old(self).heard(
                    old(channel)@,
                    topic@,
                    payload@,
                )
                &&& final(self).pending is ReceiveMessage
                &&& match verdict(asked, topic@, payload@) {
                    Ok(_) => result is Ok,
                    Err(error) => result == Err::<(), PayloadError>(error),
                }
            },
            !(reply is Message) ==> {
                &&& result is Ok
                &&& *final(self) == (Session { pending: follow_up(old(self).broker, reply),
                    ..*old(self)
                })
                &&& final(channel)@ == old(channel)@
            },
    {
        match reply {
            Reply::Message { topic, payload } => {
                match channel.take(self.reader) {
                    Some(count) => {
                        self.asked = count;
                    },
                    None => {},
                }
                match judge(self.asked, topic, payload) {
                    Ok(Verdict::Ignore) => Ok(()),
                    Ok(Verdict::Announce { count }) => {
                        channel.announce(self.writer, count);
                        self.asked = count;
                        Ok(())
                    },
                    Err(error) => Err(error),
                }
            },
            Reply::Link { up } => {
                self.pending = if up {
                    Request::ResolveHost { host: self.broker.host }
                } else {
                    Request::Pause { millis: RETRY_DURATION }
                };
                Ok(())
            },
            Reply::Resolved { addresses } => {
                self.pending = Request::OpenSocket {
                    endpoint: Endpoint { address: addresses[0], port: MQTT_PORT },
                    buffer_size: SOCKET_BUFFER_SIZE,
                };
                Ok(())
            },
            Reply::SocketOpened => {
                self.pending = Request::JoinBroker {
                    options: ClientOptions {
                        version: MqttVersion::MQTTv5,
                        rng_seed: RNG_SEED,
                        max_subscribe_qos: QualityOfService::QoS1,
                        user: self.broker.user,
                        password: self.broker.password,
                        max_packet_size: MAX_PACKET_SIZE,
                        buffer_size: BUFFER_SIZE,
                    },
                };
                Ok(())
            },
            Reply::BrokerJoined => {
                self.pending = Request::SubscribeTopic { topic: TOPIC };
                Ok(())
            },
            Reply::BrokerFailed { .. } => {
                self.pending = Request::Pause { millis: RETRY_DURATION };
                Ok(())
            },
            Reply::TopicSubscribed => {
                self.pending = Request::ReceiveMessage;
                Ok(())
            },
            Reply::ResolveFailed | Reply::SocketFailed | Reply::SubscribeFailed
            | Reply::ReceiveFailed | Reply::Elapsed => {
                self.pending = Request::CheckLink;
                Ok(())
            },
        }
    }
}

/// Where everything succeeds the session comes up in five replies: the broker's host is
/// looked up and its first address connected to, on the broker's port; the broker is
/// joined by the device's name and password, and the topic subscribed to.
pub proof fn law_session_comes_up(broker: Broker, addresses: &[[u8; 4]])
    requires
        addresses@.len() > 0,
    ensures
        follow_up(broker, Reply::Link { up: true }) == (Request::ResolveHost { host: broker.host }),
        follow_up(broker, Reply::Resolved { addresses }) == (Request::OpenSocket {
            endpoint: Endpoint { address: addresses@[0], port: MQTT_PORT },
            buffer_size: SOCKET_BUFFER_SIZE,
        }),
        follow_up(broker, Reply::SocketOpened) == (Request::JoinBroker {
            options: client_options(broker),
        }),
        follow_up(broker, Reply::BrokerJoined) == (Request::SubscribeTopic { topic: TOPIC }),
        follow_up(broker, Reply::TopicSubscribed) is ReceiveMessage,
{
}

/// Whatever fails, the task starts over with a look at the link: at once, or after the
/// wait that follows a link that is down and a broker that cannot be joined.
pub proof fn law_session_starts_over(broker: Broker, request: Request, reply: Reply)
    requires
        is_reply(request, reply),
        !(reply is Message),
        !(reply is Resolved || reply is SocketOpened || reply is BrokerJoined
            || reply is TopicSubscribed),
        reply != (Reply::Link { up: true }),
    ensures
        follow_up(broker, reply) is CheckLink || {
            &&& follow_up(broker, reply) == (Request::Pause { millis: RETRY_DURATION })
            &&& follow_up(broker, Reply::Elapsed) is CheckLink
        },
        follow_up(broker, reply) is Pause <==> reply is Link || reply is BrokerFailed,
{
}

/// A message on a topic with a name is an error exactly where its payload holds no count,
/// and the error says why. A count, zero among them, never is one: it is announced exactly
/// where it is higher than what was asked for so far, and passed over where it is not. What
/// stands on a topic without a name is passed over unread.
pub proof fn law_message_is_judged_by_its_count(asked: u32, topic: Seq<char>, payload: Seq<u8>)
    ensures
        topic.len() == 0 ==> verdict(asked, topic, payload) == Ok::<Verdict, PayloadError>(
            Verdict::Ignore,
        ),
        verdict(asked, topic, payload) is Err <==> topic.len() > 0 && crate::count::count_of(
            payload,
        ) is Err,
        verdict(asked, topic, payload) matches Err(error) ==> crate::count::count_of(payload)
            == Err::<u32, PayloadError>(error),
        forall|count: u32|
            topic.len() > 0 && crate::count::count_of(payload) == Ok::<u32, PayloadError>(count)
                ==> (count > asked <==> #[trigger] verdict(asked, topic, payload) == Ok::<
                Verdict,
                PayloadError,
            >(Verdict::Announce { count })) && (count <= asked <==> verdict(
                asked,
                topic,
                payload,
            ) == Ok::<Verdict, PayloadError>(Verdict::Ignore)),
{
}

/// A count that was announced is passed over from then on, on any topic and however it is
/// written, and so is every lower one.
pub proof fn law_announced_count_is_old(
    asked: u32,
    topic: Seq<char>,
    payload: Seq<u8>,
    later_topic: Seq<char>,
    later_payload: Seq<u8>,
)
    requires
        crate::count::count_of(payload) is Ok,
        crate::count::count_of(later_payload) is Ok,
        crate::count::count_of(later_payload)->Ok_0 <= crate::count::count_of(payload)->Ok_0,
        verdict(asked, topic, payload) is Ok,
        verdict(asked, topic, payload)->Ok_0 is Announce,
    ensures
        verdict(verdict(asked, topic, payload)->Ok_0->count, later_topic, later_payload) == Ok::<
            Verdict,
            PayloadError,
        >(Verdict::Ignore),
        verdict(asked, topic, payload)->Ok_0->count > asked,
{
}

/// A message is held against the count that stands first in the task's own backlog, or, where
/// that is empty, against the one that the task keeps. The count that it was held against
/// leaves the backlog. A higher count is announced to every reader, and the task keeps it; any
/// other message leaves the other readers alone. Nothing else of the task changes.
pub proof fn law_message_changes_only_counts(
    session: Session,
    backlogs: Seq<Seq<u32>>,
    topic: Seq<char>,
    payload: Seq<u8>,
    reader: int,
)
    requires
        session.reader < backlogs.len(),
        0 <= reader < backlogs.len(),
    ensures
        ({
            let (after, left) = session.heard(backlogs, topic, payload);
            let own = backlogs[session.reader as int];
            let asked = if own.len() > 0 {
                own[0]
            } else {
                session.asked
            };
            let kept = if reader == session.reader && own.len() > 0 {
                own.skip(1)
            } else {
                backlogs[reader]
            };
            &&& after.reader == session.reader
            &&& after.writer == session.writer
            &&& after.broker == session.broker
            &&& after.pending == session.pending
            &&& left.len() == backlogs.len()
            &&& after.asked >= asked
            &&& after.asked > asked ==> {
                &&& topic.len() > 0
                &&& crate::count::count_of(payload) == Ok::<u32, PayloadError>(after.asked)
                &&& left[reader] == kept + seq![after.asked]
            }
            &&& after.asked == asked ==> {
                &&& left[reader] == kept
                &&& topic.len() > 0 && crate::count::count_of(payload) is Ok
                    ==> crate::count::count_of(payload)->Ok_0 <= asked
            }
        }),
{
    let (after, left) = session.heard(backlogs, topic, payload);
    let own = backlogs[session.reader as int];
    if own.len() > 0 {
        assert(own.drop_first() =~= own.skip(1));
    }
    let kept = crate::channel::taken(backlogs, session.reader as int)[reader];
    assert(kept.push(after.asked) =~= kept + seq![after.asked]);
}

/// The broker is always joined by the name and the password that were given for it, each in
/// its own place, over version five of the protocol, at least once for every message, and
/// with the client's own seed and sizes.
pub proof fn law_joins_by_name_and_password(broker: Broker)
    ensures
        follow_up(broker, Reply::SocketOpened) matches Request::JoinBroker { options } && {
            &&& options.user == broker.user
            &&& options.password == broker.password
            &&& options.version is MQTTv5
            &&& options.max_subscribe_qos is QoS1
            &&& options.rng_seed == RNG_SEED
            &&& options.max_packet_size == MAX_PACKET_SIZE
            &&& options.buffer_size == BUFFER_SIZE
        },
{
}

/// What fails sends the task back to a look at the link, whatever the broker: at once where
/// the host, the socket, the subscription or the message failed, and after the retry wait
/// where the link is down or the broker could not be joined, whatever its reason.
pub proof fn law_failure_leads_back_to_the_link(broker: Broker, error: BrokerError)
    ensures
        follow_up(broker, Reply::ResolveFailed) is CheckLink,
        follow_up(broker, Reply::SocketFailed) is CheckLink,
        follow_up(broker, Reply::SubscribeFailed) is CheckLink,
        follow_up(broker, Reply::ReceiveFailed) is CheckLink,
        follow_up(broker, Reply::Elapsed) is CheckLink,
        follow_up(broker, Reply::Link { up: false }) matches Request::Pause { millis } && millis
            == RETRY_DURATION,
        follow_up(broker, Reply::BrokerFailed { error }) matches Request::Pause { millis }
            && millis == RETRY_DURATION,
{
}

/// Every kind of reply answers one kind of request, and is taken then, whatever it holds and
/// whatever the task has counted; the one exception is a host that was found without an
/// address.
pub proof fn law_every_answer_is_taken(session: Session, reply: Reply)
    ensures
        session.accepts_spec(reply) <==> match reply {
            Reply::Link { .. } => session.pending is CheckLink,
            Reply::Resolved { addresses } => session.pending is ResolveHost && addresses@.len()
                != 0,
            Reply::ResolveFailed => session.pending is ResolveHost,
            Reply::SocketOpened | Reply::SocketFailed => session.pending is OpenSocket,
            Reply::BrokerJoined | Reply::BrokerFailed { .. } => session.pending is JoinBroker,
            Reply::TopicSubscribed | Reply::SubscribeFailed => session.pending is SubscribeTopic,
            Reply::Message { .. } | Reply::ReceiveFailed => session.pending is ReceiveMessage,
            Reply::Elapsed => session.pending is Pause,
        },
{
}

/// A task that is about to look at the link, for the first time or after any failure, comes
/// up again: one success after another is taken, and then every message is.
pub proof fn law_session_comes_up_again(
    session: Session,
    addresses: &[[u8; 4]],
    topic: &str,
    payload: &[u8],
)
    requires
        session.pending is CheckLink,
        addresses@.len() > 0,
    ensures
        ({
            let link = Reply::Link { up: true };
            let found = Reply::Resolved { addresses };
            let resolving = Session { pending: follow_up(session.broker, link), ..session };
            let opening = Session { pending: follow_up(session.broker, found), ..session };
            let joining = Session {
                pending: follow_up(session.broker, Reply::SocketOpened),
                ..session
            };
            let subscribing = Session {
                pending: follow_up(session.broker, Reply::BrokerJoined),
                ..session
            };
            let listening = Session {
                pending: follow_up(session.broker, Reply::TopicSubscribed),
                ..session
            };
            &&& session.accepts_spec(link)
            &&& resolving.accepts_spec(found)
            &&& opening.accepts_spec(Reply::SocketOpened)
            &&& joining.accepts_spec(Reply::BrokerJoined)
            &&& subscribing.accepts_spec(Reply::TopicSubscribed)
            &&& listening.accepts_spec(Reply::Message { topic, payload })
            &&& resolving.pending matches Request::ResolveHost { host } && host
                == session.broker.host
            &&& opening.pending matches Request::OpenSocket { endpoint, buffer_size } && {
                &&& endpoint.address == addresses@[0]
                &&& endpoint.port == MQTT_PORT
                &&& buffer_size == SOCKET_BUFFER_SIZE
            }
            &&& subscribing.pending matches Request::SubscribeTopic { topic: subscribed }
                && subscribed == TOPIC
        }),
{
}

} // verus!
