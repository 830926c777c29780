//! The channel over which the MQTT session tells the servo how many treats have been
//! asked for so far.
//!
//! Every reader has a backlog of its own: the counts that were announced since it
//! subscribed and that it has not taken yet, oldest first. The counts travel over an
//! `embassy_sync` publish/subscribe channel. That has room for [`CAPACITY`] counts only,
//! and drops the oldest where one more is published; so before anything is published
//! what the readers have left there is stored away for them, and nothing is lost.

use embassy_sync::blocking_mutex::raw::NoopRawMutex;
use embassy_sync::pubsub::{PubSubChannel, Publisher, Subscriber};
use vstd::prelude::*;

verus! {

/// How many counts the publish/subscribe channel holds before it drops the oldest.
pub const CAPACITY: usize = 2;

/// How many readers can subscribe.
pub const READERS: usize = 2;

/// How many writers can register.
pub const WRITERS: usize = 2;

/// What a reader takes from its backlog.
pub open spec fn head(backlog: Seq<u32>) -> Option<u32> {
    if backlog.len() == 0 {
        None
    } else {
        Some(backlog[0])
    }
}

/// What is left of a backlog once its reader has taken from it.
pub open spec fn tail(backlog: Seq<u32>) -> Seq<u32> {
    if backlog.len() == 0 {
        backlog
    } else {
        backlog.drop_first()
    }
}

/// All backlogs after one reader has taken from its own.
pub open spec fn taken(backlogs: Seq<Seq<u32>>, reader: int) -> Seq<Seq<u32>> {
    backlogs.update(reader, tail(backlogs[reader]))
}

/// All backlogs after one more count was announced.
pub open spec fn announced(backlogs: Seq<Seq<u32>>, count: u32) -> Seq<Seq<u32>> {
    backlogs.map_values(|backlog: Seq<u32>| backlog.push(count))
}

/// What a reader finds on the bus after one more count was published.
pub open spec fn pushed(backlog: Seq<u32>, count: u32) -> Seq<u32> {
    if backlog.len() < CAPACITY {
        backlog.push(count)
    } else {
        backlog.drop_first().push(count)
    }
}

/// An `embassy_sync` publish/subscribe channel together with every handle to it.
///
/// The handles refer to the channel, which is therefore allocated once and never
/// freed. That all of them are held here, and nowhere else, makes what the readers
/// have still to read a matter of this value alone.
#[verifier::external_body]
pub struct Bus {
    channel: &'static PubSubChannel<NoopRawMutex, u32, CAPACITY, READERS, WRITERS>,
    writers: Vec<Publisher<'static, NoopRawMutex, u32, CAPACITY, READERS, WRITERS>>,
    readers: Vec<Subscriber<'static, NoopRawMutex, u32, CAPACITY, READERS, WRITERS>>,
}

/// What a bus's readers have still to read, in the order in which they subscribed.
pub uninterp spec fn backlogs(bus: Bus) -> Seq<Seq<u32>>;

/// How many writers have registered with a bus.
pub uninterp spec fn writers(bus: Bus) -> nat;

impl Bus {
    /// `PubSubChannel::new`: a new channel has neither readers nor writers.
    #[verifier::external_body]
    fn new() -> (bus: Bus)
        ensures
            backlogs(bus) == Seq::<Seq<u32>>::empty(),
            writers(bus) == 0,
    {
        let channel = Box::leak(Box::new(PubSubChannel::new()));
        Bus { channel, writers: Vec::new(), readers: Vec::new() }
    }

    /// `PubSubChannel::subscriber`: as long as fewer than [`READERS`] have subscribed
    /// there is one reader more, with nothing to read yet, and its place in the order is
    /// given; after that the call is refused and nothing changes.
    #[verifier::external_body]
    fn subscriber(&mut self) -> (reader: Option<usize>)
        ensures
            reader is Some <==> backlogs(*old(self)).len() < READERS,
            reader matches Some(place) ==> {
                &&& place == backlogs(*old(self)).len()
                &&& backlogs(*final(self)) == backlogs(*old(self)).push(Seq::empty())
            },
            reader is None ==> backlogs(*final(self)) == backlogs(*old(self)),
            writers(*final(self)) == writers(*old(self)),
    {
        match self.channel.subscriber() {
            Ok(subscriber) => {
                let place = self.readers.len();
                self.readers.push(subscriber);
                Some(place)
            },
            Err(_) => None,
        }
    }

    /// `PubSubChannel::publisher`: as long as fewer than [`WRITERS`] have registered there
    /// is one writer more, and its place in the order is given; after that the call is
    /// refused and nothing changes. What there is to read stays either way.
    #[verifier::external_body]
    fn publisher(&mut self) -> (writer: Option<usize>)
        ensures
            writer is Some <==> writers(*old(self)) < WRITERS,
            writer matches Some(place) ==> {
                &&& place == writers(*old(self))
                &&& writers(*final(self)) == writers(*old(self)) + 1
            },
            writer is None ==> writers(*final(self)) == writers(*old(self)),
            backlogs(*final(self)) == backlogs(*old(self)),
    {
        match self.channel.publisher() {
            Ok(publisher) => {
                let place = self.writers.len();
                self.writers.push(publisher);
                Some(place)
            },
            Err(_) => None,
        }
    }

    /// `Pub::publish_immediate`: every reader has the count to read; one that had
    /// [`CAPACITY`] counts to read already loses the oldest of them.
    #[verifier::external_body]
    fn publish_immediate(&mut self, writer: usize, count: u32)
        requires
            writer < writers(*old(self)),
        ensures
            backlogs(*final(self)) == backlogs(*old(self)).map_values(
                |backlog: Seq<u32>| pushed(backlog, count),
            ),
            writers(*final(self)) == writers(*old(self)),
    {
        self.writers[writer].publish_immediate(count)
    }

    /// `Sub::try_next_message_pure`: the oldest count that the reader has not read, or
    /// `None` where there is none; what was lost on the way is passed over. What other
    /// readers have to read stays.
    #[verifier::external_body]
    fn try_next_message_pure(&mut self, reader: usize) -> (count: Option<u32>)
        requires
            reader < backlogs(*old(self)).len(),
        ensures
            count == head(backlogs(*old(self))[reader as int]),
            backlogs(*final(self)) == taken(backlogs(*old(self)), reader as int),
            writers(*final(self)) == writers(*old(self)),
    {
        self.readers[reader].try_next_message_pure()
    }
}

/// The channel of treat counts. Its view is the backlogs of its readers.
pub struct TreatChannel {
    bus: Bus,
    /// For every reader, the counts that were taken off the bus for it and that it has
    /// not taken itself yet.
    stored: Vec<Vec<u32>>,
}

impl View for TreatChannel {
    type V = Seq<Seq<u32>>;

    closed spec fn view(&self) -> Seq<Seq<u32>> {
        Seq::new(
            backlogs(self.bus).len(),
            |i: int| self.stored@[i]@ + backlogs(self.bus)[i],
        )
    }
}

impl TreatChannel {
    /// There is a store for every reader.
    pub closed spec fn wf(self) -> bool {
        self.stored@.len() == backlogs(self.bus).len()
    }

    /// How many writers have registered.
    pub closed spec fn writers(self) -> nat {
        writers(self.bus)
    }

    /// A channel that nobody reads or writes yet.
    pub fn new() -> (channel: TreatChannel)
        ensures
            channel.wf(),
            channel@ == Seq::<Seq<u32>>::empty(),
            channel.writers() == 0,
    {
        TreatChannel { bus: Bus::new(), stored: Vec::new() }
    }

    /// Adds a reader, which will have what is announced from now on. `None` if
    /// [`READERS`] have subscribed already.
    pub fn subscribe(&mut self) -> (reader: Option<usize>)
        requires
            old(self).wf(),
        ensures
            final(self).wf(),
            reader is Some <==> old(self)@.len() < READERS,
            reader matches Some(place) ==> {
                &&& place == old(self)@.len()
                &&& final(self)@ == old(self)@.push(Seq::empty())
            },
            reader is None ==> final(self)@ == old(self)@,
            final(self).writers() == old(self).writers(),
    {
        let reader = self.bus.subscriber();
        if reader.is_some() {
            self.stored.push(Vec::new());
            assert(self@ =~~= old(self)@.push(Seq::empty()));
        }
        reader
    }

    /// Adds a writer. `None` if [`WRITERS`] have registered already.
    pub fn register(&mut self) -> (writer: Option<usize>)
        requires
            old(self).wf(),
        ensures
            final(self).wf(),
            writer is Some <==> old(self).writers() < WRITERS,
            writer matches Some(place) ==> {
                &&& place == old(self).writers()
                &&& final(self).writers() == old(self).writers() + 1
            },
            writer is None ==> final(self).writers() == old(self).writers(),
            final(self)@ == old(self)@,
    {
        self.bus.publisher()
    }

    /// Takes everything off the bus that one reader has there, and stores it for the
    /// reader.
    fn drain(&mut self, reader: usize)
        requires
            old(self).wf(),
            reader < old(self)@.len(),
        ensures
            final(self).wf(),
            final(self)@ == old(self)@,
            final(self).writers() == old(self).writers(),
            backlogs(final(self).bus) == backlogs(old(self).bus).update(
                reader as int,
                Seq::empty(),
            ),
    {
        loop
            invariant
                self.wf(),
                self@ == old(self)@,
                self.writers() == old(self).writers(),
                reader < backlogs(self.bus).len(),
                backlogs(self.bus).len() == backlogs(old(self).bus).len(),
                forall|i: int|
                    0 <= i < backlogs(self.bus).len() && i != reader ==> #[trigger] backlogs(
                        self.bus,
                    )[i] == backlogs(old(self).bus)[i],
            ensures
                backlogs(self.bus)[reader as int] == Seq::<u32>::empty(),
            decreases backlogs(self.bus)[reader as int].len(),
        {
            let ghost before = *self;
            match self.bus.try_next_message_pure(reader) {
                None => {
                    assert(backlogs(self.bus) =~= backlogs(before.bus));
                    break;
                },
                Some(count) => {
                    self.stored[reader].push(count);
                    assert(self@ =~~= before@);
                },
            }
        }
        assert(backlogs(self.bus) =~= backlogs(old(self).bus).update(
            reader as int,
            Seq::empty(),
        ));
    }

    /// Gives every reader one more count to take.
    pub fn announce(&mut self, writer: usize, count: u32)
        requires
            old(self).wf(),
            writer < old(self).writers(),
        ensures
            final(self).wf(),
            final(self)@ == announced(old(self)@, count),
            final(self).writers() == old(self).writers(),
    {
        let mut reader: usize = 0;
        while reader < self.stored.len()
            invariant
                self.wf(),
                self@ == old(self)@,
                self.writers() == old(self).writers(),
                reader <= self.stored@.len(),
                forall|i: int|
                    0 <= i < reader ==> #[trigger] backlogs(self.bus)[i] == Seq::<u32>::empty(),
            decreases self.stored@.len() - reader,
        {
            self.drain(reader);
            reader = reader + 1;
        }
        let ghost before = *self;
        self.bus.publish_immediate(writer, count);
        assert forall|i: int| 0 <= i < self@.len() implies #[trigger] self@[i]
            == before@[i].push(count) by {
            assert(backlogs(before.bus)[i] == Seq::<u32>::empty());
            assert(self@[i] =~= before@[i].push(count));
        }
        assert(self@ =~= announced(old(self)@, count));
    }

    /// Takes the oldest count that a reader has not taken yet.
    pub fn take(&mut self, reader: usize) -> (count: Option<u32>)
        requires
            old(self).wf(),
            reader < old(self)@.len(),
        ensures
            final(self).wf(),
            count == head(old(self)@[reader as int]),
            final(self)@ == taken(old(self)@, reader as int),
            final(self).writers() == old(self).writers(),
    {
        let count = if self.stored[reader].len() > 0 {
            Some(self.stored[reader].remove(0))
        } else {
            self.bus.try_next_message_pure(reader)
        };
        assert(self@ =~~= taken(old(self)@, reader as int));
        count
    }
}

/// Whatever is announced, every reader takes it, after all that it had to take before.
pub proof fn law_announced_counts_are_kept(backlogs: Seq<Seq<u32>>, counts: Seq<u32>, reader: int)
    requires
        0 <= reader < backlogs.len(),
    ensures
        announced_all(backlogs, counts).len() == backlogs.len(),
        announced_all(backlogs, counts)[reader] == backlogs[reader] + counts,
    decreases counts.len(),
{
    if counts.len() > 0 {
        law_announced_counts_are_kept(backlogs, counts.drop_last(), reader);
        assert(counts =~= counts.drop_last().push(counts.last()));
    }
    assert(announced_all(backlogs, counts)[reader] =~= backlogs[reader] + counts);
}

/// All backlogs after one count after another was announced.
pub open spec fn announced_all(backlogs: Seq<Seq<u32>>, counts: Seq<u32>) -> Seq<Seq<u32>>
    decreases counts.len(),
{
    if counts.len() == 0 {
        backlogs
    } else {
        announced(announced_all(backlogs, counts.drop_last()), counts.last())
    }
}

/// What a reader takes stood first in its backlog, and all that stood behind it is left,
/// in order; it takes nothing exactly where there is nothing. No other reader notices.
pub proof fn law_first_announced_first_taken(backlogs: Seq<Seq<u32>>, reader: int, other: int)
    requires
        0 <= reader < backlogs.len(),
        0 <= other < backlogs.len(),
    ensures
        taken(backlogs, reader).len() == backlogs.len(),
        match head(backlogs[reader]) {
            Some(count) => seq![count] + taken(backlogs, reader)[reader] == backlogs[reader],
            None => backlogs[reader].len() == 0 && taken(backlogs, reader)[reader].len() == 0,
        },
        other != reader ==> taken(backlogs, reader)[other] == backlogs[other],
{
    let backlog = backlogs[reader];
    if backlog.len() > 0 {
        assert(seq![backlog[0]] + backlog.drop_first() =~= backlog);
    }
}

/// A count that is announced stands last in every reader's backlog, behind all that stood
/// there already.
pub proof fn law_announced_to_every_reader(backlogs: Seq<Seq<u32>>, count: u32, reader: int)
    requires
        0 <= reader < backlogs.len(),
    ensures
        announced(backlogs, count).len() == backlogs.len(),
        announced(backlogs, count)[reader] == backlogs[reader] + seq![count],
{
    assert(backlogs[reader].push(count) =~= backlogs[reader] + seq![count]);
}

/// The bus holds the latest counts, as many as there is room for.
pub proof fn law_bus_holds_the_latest(backlog: Seq<u32>, count: u32)
    requires
        backlog.len() <= CAPACITY,
    ensures
        pushed(backlog, count).len() <= CAPACITY,
        pushed(backlog, count).is_suffix_of(backlog + seq![count]),
        pushed(backlog, count).len() < CAPACITY ==> pushed(backlog, count) == backlog
            + seq![count],
        pushed(backlog, count).len() > 0,
{
    assert(pushed(backlog, count).is_suffix_of(backlog + seq![count]));
    if pushed(backlog, count).len() < CAPACITY {
        assert(pushed(backlog, count) =~= backlog + seq![count]);
    }
}

} // verus!
