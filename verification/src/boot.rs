//! What the device does from power-on: it waits for the network, launches the two tasks
//! that dispense treats and idles from then on.

use vstd::prelude::*;

verus! {

/// How long the device waits, in milliseconds, before it looks at the network again.
pub const POLL_DURATION: u32 = 500;

/// How long the device idles at a time, in milliseconds.
pub const IDLE_DURATION: u32 = 5_000;

/// What the firmware is to do next.
#[derive(Debug, Clone, Copy, PartialEq, Eq, Structural)]
pub enum Request {
    /// See whether the network link is up.
    CheckLink,
    /// See whether the device has an address.
    CheckAddress,
    /// Launch the session's task and the servo's.
    Launch,
    /// Wait for this many milliseconds.
    Pause { millis: u32 },
}

/// What came of it.
#[derive(Debug, Clone, Copy, PartialEq, Eq, Structural)]
pub enum Reply {
    Link { up: bool },
    Address { assigned: bool },
    Launched,
    Elapsed,
}

/// What the device is at.
#[derive(Debug, Clone, Copy, PartialEq, Eq, Structural)]
pub enum Boot {
    /// About to look at the link.
    SeekingLink,
    /// Waiting for the link.
    AwaitingLink,
    /// About to look for an address.
    SeekingAddress,
    /// Waiting for an address.
    AwaitingAddress,
    /// About to launch the tasks.
    Launching,
    /// Idling, for the time of this number, counted from zero.
    Idling { iteration: u64 },
}

impl Boot {
    /// What the device waits for an answer to.
    pub open spec fn pending(self) -> Request {
        match self {
            Boot::SeekingLink => Request::CheckLink,
            Boot::AwaitingLink => Request::Pause { millis: POLL_DURATION },
            Boot::SeekingAddress => Request::CheckAddress,
            Boot::AwaitingAddress => Request::Pause { millis: POLL_DURATION },
            Boot::Launching => Request::Launch,
            Boot::Idling { .. } => Request::Pause { millis: IDLE_DURATION },
        }
    }

    /// Whether a reply is one to the request, and there is a number left for the next time
    /// that the device idles.
    pub open spec fn accepts_spec(self, reply: Reply) -> bool {
        &&& match self.pending() {
            Request::CheckLink => reply is Link,
            Request::CheckAddress => reply is Address,
            Request::Launch => reply is Launched,
            Request::Pause { .. } => reply is Elapsed,
        }
        &&& self matches Boot::Idling { iteration } ==> iteration < u64::MAX
    }

    /// What the device is at after a reply.
    pub open spec fn next(self, reply: Reply) -> Boot {
        match reply {
            Reply::Link { up } => if up {
                Boot::SeekingAddress
            } else {
                Boot::AwaitingLink
            },
            Reply::Address { assigned } => if assigned {
                Boot::Launching
            } else {
                Boot::AwaitingAddress
            },
            Reply::Launched => Boot::Idling { iteration: 0 },
            Reply::Elapsed => match self {
                Boot::AwaitingLink => Boot::SeekingLink,
                Boot::AwaitingAddress => Boot::SeekingAddress,
                Boot::Idling { iteration } => Boot::Idling { iteration: (iteration + 1) as u64 },
                _ => self,
            },
        }
    }

    /// What the device is at after one reply after another.
    pub open spec fn run(self, replies: Seq<Reply>) -> Boot
        decreases replies.len(),
    {
        if replies.len() == 0 {
            self
        } else {
            self.run(replies.drop_last()).next(replies.last())
        }
    }

    /// Whether every one of the replies is one to the request that it meets.
    pub open spec fn accepts_all(self, replies: Seq<Reply>) -> bool {
        forall|i: int|
            0 <= i < replies.len() ==> self.run(replies.take(i)).accepts_spec(#[trigger] replies[i])
    }

    /// The device begins with a look at the link.
    pub fn start() -> (boot: Boot)
        ensures
            boot is SeekingLink,
    {
        Boot::SeekingLink
    }

    /// What is to be done next.
    pub fn request(&self) -> (request: Request)
        ensures
            request == self.pending(),
    {
        match *self {
            Boot::SeekingLink => Request::CheckLink,
            Boot::SeekingAddress => Request::CheckAddress,
            Boot::AwaitingLink | Boot::AwaitingAddress => Request::Pause { millis: POLL_DURATION },
            Boot::Launching => Request::Launch,
            Boot::Idling { .. } => Request::Pause { millis: IDLE_DURATION },
        }
    }

    /// Whether the device can go on with this reply.
    pub fn accepts(&self, reply: &Reply) -> (accepted: bool)
        ensures
            accepted == self.accepts_spec(*reply),
    {
        match (*self, *reply) {
            (Boot::SeekingLink, Reply::Link { .. }) => true,
            (Boot::SeekingAddress, Reply::Address { .. }) => true,
            (Boot::AwaitingLink, Reply::Elapsed) => true,
            (Boot::AwaitingAddress, Reply::Elapsed) => true,
            (Boot::Launching, Reply::Launched) => true,
            (Boot::Idling { iteration }, Reply::Elapsed) => iteration < u64::MAX,
            _ => false,
        }
    }

    /// Goes on with what came of the pending request.
    pub fn step(&mut self, reply: Reply)
        requires
            old(self).accepts_spec(reply),
        ensures
            *final(self) == old(self).next(reply),
    {
        *self = match reply {
            Reply::Link { up } => if up {
                Boot::SeekingAddress
            } else {
                Boot::AwaitingLink
            },
            Reply::Address { assigned } => if assigned {
                Boot::Launching
            } else {
                Boot::AwaitingAddress
            },
            Reply::Launched => Boot::Idling { iteration: 0 },
            Reply::Elapsed => match *self {
                Boot::AwaitingLink => Boot::SeekingLink,
                Boot::AwaitingAddress => Boot::SeekingAddress,
                Boot::Idling { iteration } => Boot::Idling { iteration: iteration + 1 },
                other => other,
            },
        };
    }
}

/// Before the tasks are launched the link has been up and an address has been assigned,
/// in that order.
pub proof fn law_launch_needs_network(replies: Seq<Reply>)
    requires
        Boot::SeekingLink.accepts_all(replies),
        Boot::SeekingLink.run(replies) is Launching,
    ensures
        exists|i: int, j: int|
            0 <= i < j < replies.len() && #[trigger] replies[i] == (Reply::Link { up: true })
                && #[trigger] replies[j] == (Reply::Address { assigned: true }),
{
    let n = replies.len() as int;
    assert(replies.take(n) =~= replies);
    lemma_last_reply(Boot::SeekingLink, replies, n);
    lemma_link_seen(replies, n - 1);
}

/// A device that is past its wait for the link has seen it up.
proof fn lemma_link_seen(replies: Seq<Reply>, n: int)
    requires
        Boot::SeekingLink.accepts_all(replies),
        0 <= n <= replies.len(),
        !(Boot::SeekingLink.run(replies.take(n)) is SeekingLink),
        !(Boot::SeekingLink.run(replies.take(n)) is AwaitingLink),
    ensures
        exists|i: int| 0 <= i < n && #[trigger] replies[i] == (Reply::Link { up: true }),
    decreases n,
{
    if n > 0 {
        let before = Boot::SeekingLink.run(replies.take(n - 1));
        lemma_last_reply(Boot::SeekingLink, replies, n);
        if before is SeekingLink || before is AwaitingLink {
            assert(replies[n - 1] == (Reply::Link { up: true }));
        } else {
            lemma_link_seen(replies, n - 1);
        }
    }
}

/// The tasks are launched once: a device that idles goes on idling.
pub proof fn law_launch_once(boot: Boot, reply: Reply)
    requires
        boot.accepts_spec(reply),
        boot is Launching || boot is Idling,
    ensures
        boot.next(reply) is Idling,
{
}

/// The device looks at the link until it is up, then for an address until it has one, each
/// time with the same wait in between.
pub proof fn law_network_is_waited_for(up: bool, assigned: bool)
    ensures
        Boot::SeekingLink.pending() is CheckLink,
        Boot::SeekingLink.accepts_spec(Reply::Link { up }),
        ({
            let after = Boot::SeekingLink.next(Reply::Link { up });
            &&& up ==> after is SeekingAddress
            &&& !up ==> {
                &&& after.pending() matches Request::Pause { millis } && millis == POLL_DURATION
                &&& after.accepts_spec(Reply::Elapsed)
                &&& after.next(Reply::Elapsed) is SeekingLink
            }
        }),
        Boot::SeekingAddress.pending() is CheckAddress,
        Boot::SeekingAddress.accepts_spec(Reply::Address { assigned }),
        ({
            let after = Boot::SeekingAddress.next(Reply::Address { assigned });
            &&& assigned ==> after is Launching
            &&& !assigned ==> {
                &&& after.pending() matches Request::Pause { millis } && millis == POLL_DURATION
                &&& after.accepts_spec(Reply::Elapsed)
                &&& after.next(Reply::Elapsed) is SeekingAddress
            }
        }),
{
}

/// The tasks are to be launched exactly where the device is about to launch them. A device
/// that idles waits equally long every time, and counts the times; it takes nothing but the
/// end of the wait, as long as there is a number left.
pub proof fn law_idling_device_only_waits(boot: Boot, reply: Reply)
    ensures
        boot.pending() is Launch <==> boot is Launching,
        boot is Launching ==> boot.accepts_spec(Reply::Launched) && boot.next(Reply::Launched) == (
        Boot::Idling { iteration: 0 }),
        boot matches Boot::Idling { iteration } ==> {
            &&& boot.pending() matches Request::Pause { millis } && millis == IDLE_DURATION
            &&& boot.accepts_spec(reply) <==> reply is Elapsed && iteration < u64::MAX
            &&& boot.accepts_spec(reply) ==> boot.next(reply) == (Boot::Idling {
                iteration: (iteration + 1) as u64,
            })
        },
{
}

/// The last of the first `n` replies is taken where the ones before it lead.
proof fn lemma_last_reply(boot: Boot, replies: Seq<Reply>, n: int)
    requires
        boot.accepts_all(replies),
        0 < n <= replies.len(),
    ensures
        boot.run(replies.take(n - 1)).accepts_spec(replies[n - 1]),
        boot.run(replies.take(n)) == boot.run(replies.take(n - 1)).next(replies[n - 1]),
{
    assert(replies.take(n).drop_last() =~= replies.take(n - 1));
    assert(replies.take(n).last() == replies[n - 1]);
    assert(boot.run(replies.take(n - 1)).accepts_spec(replies[n - 1]));
}

/// Once the tasks are launched the device idles, whatever comes: it has counted every wait
/// since, and each was as long as the others.
pub proof fn law_idles_from_the_launch_on(replies: Seq<Reply>, launch: int, n: int)
    requires
        Boot::SeekingLink.accepts_all(replies),
        0 <= launch < n <= replies.len(),
        replies[launch] is Launched,
    ensures
        ({
            let after = Boot::SeekingLink.run(replies.take(n));
            &&& after matches Boot::Idling { iteration } && iteration == n - launch - 1
            &&& after.pending() matches Request::Pause { millis } && millis == IDLE_DURATION
        }),
        n > launch + 1 ==> replies[n - 1] is Elapsed,
    decreases n,
{
    lemma_last_reply(Boot::SeekingLink, replies, n);
    if n - 1 > launch {
        law_idles_from_the_launch_on(replies, launch, n - 1);
    }
}

/// From power-on there is at most one launch, however long the device runs.
pub proof fn law_at_most_one_launch(replies: Seq<Reply>, launch: int, other: int)
    requires
        Boot::SeekingLink.accepts_all(replies),
        0 <= launch < replies.len(),
        0 <= other < replies.len(),
        replies[launch] is Launched,
        replies[other] is Launched,
    ensures
        launch == other,
{
    if launch < other {
        law_idles_from_the_launch_on(replies, launch, other + 1);
    } else if other < launch {
        law_idles_from_the_launch_on(replies, other, launch + 1);
    }
}

/// Every kind of reply answers one kind of request, and is taken then, whatever it says;
/// only the idle waits can run out of numbers.
pub proof fn law_every_answer_is_taken(boot: Boot, reply: Reply)
    ensures
        boot.accepts_spec(reply) <==> match reply {
            Reply::Link { .. } => boot is SeekingLink,
            Reply::Address { .. } => boot is SeekingAddress,
            Reply::Launched => boot is Launching,
            Reply::Elapsed => match boot {
                Boot::Idling { iteration } => iteration < u64::MAX,
                _ => boot is AwaitingLink || boot is AwaitingAddress,
            },
        },
{
}

} // verus!
