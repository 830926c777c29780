//! The task that keeps the device on the Wi-Fi network: when the connection is lost it
//! tries to get it back.

use vstd::prelude::*;

verus! {

/// How long the task waits, in milliseconds, before it goes on.
pub const SETTLE_DURATION: u32 = 5_000;

/// What the radio says of itself.
#[derive(Debug, Clone, Copy, PartialEq, Eq, Structural)]
pub enum WifiState {
    StaConnected,
    StaDisconnected,
    StaStarted,
    StaStopped,
    Invalid,
    /// A state of the access point, which this device is not.
    Other,
}

/// The network to be on.
#[derive(Debug, Clone, Copy, PartialEq, Eq)]
pub struct Network {
    pub ssid: &'static str,
    pub password: &'static str,
}

/// What the firmware is to do next.
#[derive(Debug, Clone, Copy, PartialEq, Eq)]
pub enum Request {
    /// Ask for the radio's state.
    ReadState,
    /// Wait until the station is disconnected.
    AwaitDisconnect,
    /// Wait for this many milliseconds.
    Pause { millis: u32 },
    /// Ask whether the radio is started.
    ReadStarted,
    /// Make the radio a client of this network.
    Configure { network: Network },
    /// Start the radio.
    Start,
    /// Connect to the network.
    Connect,
}

/// What came of it. The radio may fail to say whether it is started.
#[derive(Debug, Clone, Copy, PartialEq, Eq)]
pub enum Reply {
    State { state: WifiState },
    Disconnected,
    Elapsed,
    Started { started: Result<bool, ()> },
    Configured,
    StartDone,
    Connected,
    ConnectFailed,
}

/// What the task is at.
#[derive(Debug, Clone, Copy, PartialEq, Eq, Structural)]
pub enum Phase {
    /// About to look at the radio's state.
    Observing,
    /// Connected.
    Online,
    /// Letting the radio settle before it is used.
    Settling,
    /// About to see whether the radio is started.
    Checking,
    /// About to configure the radio.
    Configuring,
    /// About to start the radio.
    Starting,
    /// About to connect.
    Connecting,
    /// Waiting after a connection that failed.
    BackingOff,
}

/// The Wi-Fi task.
#[derive(Debug, Clone, Copy, PartialEq, Eq)]
pub struct Connection {
    /// The network that it was started for.
    pub network: Network,
    pub phase: Phase,
}

impl Connection {
    /// What the task waits for an answer to.
    pub open spec fn pending(self) -> Request {
        match self.phase {
            Phase::Observing => Request::ReadState,
            Phase::Online => Request::AwaitDisconnect,
            Phase::Settling => Request::Pause { millis: SETTLE_DURATION },
            Phase::Checking => Request::ReadStarted,
            Phase::Configuring => Request::Configure { network: self.network },
            Phase::Starting => Request::Start,
            Phase::Connecting => Request::Connect,
            Phase::BackingOff => Request::Pause { millis: SETTLE_DURATION },
        }
    }

    /// Whether a reply is one to the task's request.
    pub open spec fn accepts_spec(self, reply: Reply) -> bool {
        match self.pending() {
            Request::ReadState => reply is State,
            Request::AwaitDisconnect => reply is Disconnected,
            Request::Pause { .. } => reply is Elapsed,
            Request::ReadStarted => reply is Started,
            Request::Configure { .. } => reply is Configured,
            Request::Start => reply is StartDone,
            Request::Connect => reply is Connected || reply is ConnectFailed,
        }
    }

    /// What the task is after a reply. A radio that is not known to be started is
    /// configured and started before it connects.
    pub open spec fn next(self, reply: Reply) -> Connection {
        let phase = match reply {
            Reply::State { state: WifiState::StaConnected } => Phase::Online,
            Reply::State { state: WifiState::Other } => Phase::Checking,
            Reply::State { .. } => Phase::Settling,
            Reply::Disconnected => Phase::Settling,
            Reply::Elapsed => if self.phase is Settling {
                Phase::Checking
            } else {
                Phase::Observing
            },
            Reply::Started { started } => if started == Ok::<bool, ()>(true) {
                Phase::Connecting
            } else {
                Phase::Configuring
            },
            Reply::Configured => Phase::Starting,
            Reply::StartDone => Phase::Connecting,
            Reply::Connected => Phase::Observing,
            Reply::ConnectFailed => Phase::BackingOff,
        };
        Connection { phase, ..self }
    }

    /// What the task is after one reply after another.
    pub open spec fn run(self, replies: Seq<Reply>) -> Connection
        decreases replies.len(),
    {
        if replies.len() == 0 {
            self
        } else {
            self.run(replies.drop_last()).next(replies.last())
        }
    }

    /// Whether every one of the replies is one to the request that it meets.
    pub open spec fn accepts_all(self, replies: Seq<Reply>) -> bool {
        forall|i: int|
            0 <= i < replies.len() ==> self.run(replies.take(i)).accepts_spec(#[trigger] replies[i])
    }

    /// No more than this many replies from now the task connects.
    pub open spec fn distance(self) -> nat {
        match self.phase {
            Phase::Connecting => 0,
            Phase::Starting => 1,
            Phase::Configuring => 2,
            Phase::Checking => 3,
            Phase::Settling => 4,
            Phase::Online => 5,
            Phase::Observing => 6,
            Phase::BackingOff => 7,
        }
    }

    /// A task that gets the device on a network, and keeps it there. It begins with a look
    /// at the radio.
    pub fn start(network: Network) -> (connection: Connection)
        ensures
            connection.network == network,
            connection.phase is Observing,
    {
        Connection { network, phase: Phase::Observing }
    }

    /// What is to be done next.
    pub fn request(&self) -> (request: Request)
        ensures
            request == self.pending(),
    {
        match self.phase {
            Phase::Observing => Request::ReadState,
            Phase::Online => Request::AwaitDisconnect,
            Phase::Settling | Phase::BackingOff => Request::Pause {
                millis: SETTLE_DURATION,
            },
            Phase::Checking => Request::ReadStarted,
            Phase::Configuring => Request::Configure { network: self.network },
            Phase::Starting => Request::Start,
            Phase::Connecting => Request::Connect,
        }
    }

    /// Whether a reply is one to the task's request.
    pub fn accepts(&self, reply: &Reply) -> (accepted: bool)
        ensures
            accepted == self.accepts_spec(*reply),
    {
        match (self.phase, *reply) {
            (Phase::Observing, Reply::State { .. }) => true,
            (Phase::Online, Reply::Disconnected) => true,
            (Phase::Settling, Reply::Elapsed) => true,
            (Phase::BackingOff, Reply::Elapsed) => true,
            (Phase::Checking, Reply::Started { .. }) => true,
            (Phase::Configuring, Reply::Configured) => true,
            (Phase::Starting, Reply::StartDone) => true,
            (Phase::Connecting, Reply::Connected) => true,
            (Phase::Connecting, Reply::ConnectFailed) => true,
            _ => false,
        }
    }

    /// Goes on with what came of the pending request.
    pub fn step(&mut self, reply: Reply)
        requires
            old(self).accepts_spec(reply),
        ensures
            *final(self) == old(self).next(reply),
    {
        self.phase = match reply {
            Reply::State { state } => match state {
                WifiState::StaConnected => Phase::Online,
                WifiState::Other => Phase::Checking,
                WifiState::StaDisconnected | WifiState::StaStarted | WifiState::StaStopped
                | WifiState::Invalid => Phase::Settling,
            },
            Reply::Disconnected => Phase::Settling,
            Reply::Elapsed => match self.phase {
                Phase::Settling => Phase::Checking,
                _ => Phase::Observing,
            },
            Reply::Started { started } => match started {
                Ok(true) => Phase::Connecting,
                _ => Phase::Configuring,
            },
            Reply::Configured => Phase::Starting,
            Reply::StartDone => Phase::Connecting,
            Reply::Connected => Phase::Observing,
            Reply::ConnectFailed => Phase::BackingOff,
        };
    }
}

/// Whatever the radio answers, the task is a step nearer to connecting with every reply,
/// until it connects.
pub proof fn law_reply_brings_nearer(connection: Connection, reply: Reply)
    requires
        connection.accepts_spec(reply),
        !(connection.phase is Connecting),
    ensures
        connection.next(reply).distance() < connection.distance(),
{
}

/// The task never stops trying: from wherever it is, and whatever the radio answers, it
/// connects after at most as many replies as its distance says.
pub proof fn law_always_connects_again(connection: Connection, replies: Seq<Reply>)
    requires
        connection.accepts_all(replies),
        replies.len() >= connection.distance(),
    ensures
        exists|n: int|
            0 <= n <= connection.distance() && #[trigger] connection.run(replies.take(n)).phase
                is Connecting,
{
    lemma_connects_from(connection, replies, 0);
}

/// Looks for the connection from the `n`th reply on.
proof fn lemma_connects_from(connection: Connection, replies: Seq<Reply>, n: int)
    requires
        connection.accepts_all(replies),
        replies.len() >= connection.distance(),
        0 <= n <= connection.distance(),
        connection.run(replies.take(n)).distance() + n <= connection.distance(),
    ensures
        exists|m: int|
            0 <= m <= connection.distance() && #[trigger] connection.run(replies.take(m)).phase
                is Connecting,
    decreases connection.distance() - n,
{
    let here = connection.run(replies.take(n));
    if !(here.phase is Connecting) {
        lemma_last_reply(connection, replies, n + 1);
        law_reply_brings_nearer(here, replies[n]);
        lemma_connects_from(connection, replies, n + 1);
    }
}

/// A connection that holds is left alone: the task does nothing until it is told that the
/// station is disconnected.
pub proof fn law_connection_left_alone(connection: Connection, reply: Reply)
    ensures
        connection.phase is Online && connection.accepts_spec(reply) ==> reply is Disconnected,
        connection.next(Reply::State { state: WifiState::StaConnected }).pending()
            is AwaitDisconnect,
{
}

/// The radio is configured only where it is not known to be started, and is then started
/// before it connects.
pub proof fn law_configured_then_started(connection: Connection, reply: Reply)
    requires
        connection.accepts_spec(reply),
    ensures
        connection.next(reply).phase is Configuring <==> connection.phase is Checking && reply
            != (Reply::Started { started: Ok(true) }),
        connection.next(reply).phase is Starting <==> connection.phase is Configuring,
        connection.phase is Starting ==> connection.next(reply).phase is Connecting,
{
}

/// Whenever the radio is configured, it is for the network that the task was started for.
pub proof fn law_network_is_kept(connection: Connection, replies: Seq<Reply>)
    ensures
        connection.run(replies).network == connection.network,
        connection.run(replies).pending() matches Request::Configure { network } ==> network
            == connection.network,
    decreases replies.len(),
{
    if replies.len() > 0 {
        law_network_is_kept(connection, replies.drop_last());
    }
}

/// The task looks at the radio. Where it is connected the task waits for the disconnect;
/// where the station is in any other state it settles first; and otherwise it sees at once
/// whether the radio is started.
pub proof fn law_radio_is_looked_at(connection: Connection, state: WifiState)
    requires
        connection.phase is Observing,
    ensures
        connection.pending() is ReadState,
        connection.accepts_spec(Reply::State { state }),
        ({
            let after = connection.next(Reply::State { state });
            &&& after.network == connection.network
            &&& after.phase is Online <==> state is StaConnected
            &&& after.phase is Checking <==> state is Other
            &&& after.phase is Settling <==> !(state is StaConnected) && !(state is Other)
        }),
{
}

/// While it is connected the task waits for the disconnect, and for nothing else. It then
/// settles for a while, and sees whether the radio is started.
pub proof fn law_disconnect_is_waited_for(connection: Connection)
    requires
        connection.phase is Online,
    ensures
        connection.pending() is AwaitDisconnect,
        connection.accepts_spec(Reply::Disconnected),
        ({
            let settling = connection.next(Reply::Disconnected);
            let checking = settling.next(Reply::Elapsed);
            &&& settling.phase is Settling
            &&& settling.network == connection.network
            &&& settling.pending() matches Request::Pause { millis } && millis == SETTLE_DURATION
            &&& settling.accepts_spec(Reply::Elapsed)
            &&& checking.phase is Checking
            &&& checking.network == connection.network
            &&& checking.pending() is ReadStarted
        }),
{
}

/// A radio that says that it is started is connected at once. One that says that it is not,
/// or cannot say, is first made a client of the task's network, and started.
pub proof fn law_radio_is_started_first(connection: Connection, started: Result<bool, ()>)
    requires
        connection.phase is Checking,
    ensures
        connection.pending() is ReadStarted,
        connection.accepts_spec(Reply::Started { started }),
        ({
            let after = connection.next(Reply::Started { started });
            let starting = after.next(Reply::Configured);
            let connecting = starting.next(Reply::StartDone);
            &&& after.network == connection.network
            &&& started is Ok && started->Ok_0 ==> after.phase is Connecting
            &&& started is Err || !started->Ok_0 ==> {
                &&& after.phase is Configuring
                &&& after.pending() matches Request::Configure { network } && {
                    &&& network.ssid == connection.network.ssid
                    &&& network.password == connection.network.password
                }
                &&& after.accepts_spec(Reply::Configured)
                &&& starting.phase is Starting
                &&& starting.network == connection.network
                &&& starting.pending() is Start
                &&& starting.accepts_spec(Reply::StartDone)
                &&& connecting.phase is Connecting
                &&& connecting.network == connection.network
            }
        }),
{
}

/// Whatever the network, an attempt to connect is followed by a look at the radio: at once
/// where it succeeded, and after a while where it failed.
pub proof fn law_attempt_is_followed_by_a_look(connection: Connection)
    requires
        connection.phase is Connecting,
    ensures
        connection.pending() is Connect,
        connection.accepts_spec(Reply::Connected),
        connection.accepts_spec(Reply::ConnectFailed),
        ({
            let observing = connection.next(Reply::Connected);
            let waiting = connection.next(Reply::ConnectFailed);
            let later = waiting.next(Reply::Elapsed);
            &&& observing.phase is Observing
            &&& observing.network == connection.network
            &&& observing.pending() is ReadState
            &&& waiting.phase is BackingOff
            &&& waiting.network == connection.network
            &&& waiting.pending() matches Request::Pause { millis } && millis == SETTLE_DURATION
            &&& waiting.accepts_spec(Reply::Elapsed)
            &&& later.phase is Observing
            &&& later.network == connection.network
            &&& later.pending() is ReadState
        }),
{
}

/// The last of the first `n` replies is taken where the ones before it lead.
proof fn lemma_last_reply(connection: Connection, replies: Seq<Reply>, n: int)
    requires
        connection.accepts_all(replies),
        0 < n <= replies.len(),
    ensures
        connection.run(replies.take(n - 1)).accepts_spec(replies[n - 1]),
        connection.run(replies.take(n)) == connection.run(replies.take(n - 1)).next(
            replies[n - 1],
        ),
{
    assert(replies.take(n).drop_last() =~= replies.take(n - 1));
    assert(replies.take(n).last() == replies[n - 1]);
    assert(connection.run(replies.take(n - 1)).accepts_spec(replies[n - 1]));
}

/// What follows an attempt to connect is a look at the radio, or a wait and then a look.
proof fn lemma_look_after_attempt(connection: Connection, reply: Reply, later: Reply)
    requires
        connection.pending() is Connect,
        connection.accepts_spec(reply),
    ensures
        connection.next(reply).pending() is ReadState || {
            &&& connection.next(reply).pending() is Pause
            &&& connection.next(reply).accepts_spec(later) ==> connection.next(reply).next(
                later,
            ).pending() is ReadState
        },
{
}

/// Between two attempts to connect there is always a look at the radio.
pub proof fn law_look_between_two_attempts(connection: Connection, replies: Seq<Reply>)
    requires
        connection.pending() is Connect,
        connection.accepts_all(replies),
        replies.len() > 0,
        connection.run(replies).pending() is Connect,
    ensures
        exists|i: int|
            0 < i < replies.len() && #[trigger] connection.run(replies.take(i)).pending()
                is ReadState,
{
    let none = connection.run(replies.take(0));
    let one = connection.run(replies.take(1));
    assert(replies.take(0).len() == 0);
    assert(replies.take(replies.len() as int) =~= replies);
    lemma_last_reply(connection, replies, 1);
    if one.pending() is Pause {
        lemma_look_after_attempt(none, replies[0], replies[1]);
        lemma_last_reply(connection, replies, 2);
        assert(connection.run(replies.take(2)).pending() is ReadState);
    } else {
        lemma_look_after_attempt(none, replies[0], replies[0]);
        assert(one.pending() is ReadState);
    }
}

/// Every kind of reply answers one kind of request, and is taken then, whatever it holds
/// and whatever the network.
pub proof fn law_every_answer_is_taken(connection: Connection, reply: Reply)
    ensures
        connection.accepts_spec(reply) <==> match reply {
            Reply::State { .. } => connection.pending() is ReadState,
            Reply::Disconnected => connection.pending() is AwaitDisconnect,
            Reply::Elapsed => connection.pending() is Pause,
            Reply::Started { .. } => connection.pending() is ReadStarted,
            Reply::Configured => connection.pending() is Configure,
            Reply::StartDone => connection.pending() is Start,
            Reply::Connected | Reply::ConnectFailed => connection.pending() is Connect,
        },
{
}

} // verus!
