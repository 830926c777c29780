//! The dispenser as a whole: what the session, the channel and the servo do together.
//!
//! [`Device`] is a model over the same specifications that the tasks' contracts speak of.
//! The laws say what follows from those for any interleaving of the tasks.

use crate::channel::{TreatChannel, READERS};
use crate::count::PayloadError;
use crate::servo::{Command, Phase, Servo, SWEEP_LENGTH};
use crate::session::{Broker, Reply, Request, Session, Verdict};
use vstd::prelude::*;

verus! {

/// The dispenser: its tasks, what they share, and a tally of the treats.
#[verifier::ext_equal]
pub struct Device {
    /// The backlogs of the channel.
    pub backlogs: Seq<Seq<u32>>,
    pub session: Session,
    pub servo: Servo,
    /// The counts that the session has announced, oldest first. It begins with a zero.
    pub announced: Seq<u32>,
    /// How many times the servo has released the arm.
    pub dispensed: nat,
}

/// What can happen to it.
pub enum Event<'a> {
    /// The session's task has a reply: a message, or anything that has to do with losing
    /// the connection and bringing it up again.
    Reply { reply: Reply<'a> },
    /// The servo's task takes a step.
    ServoStep,
}

/// Every count is higher than those before it.
pub open spec fn rising(counts: Seq<u32>) -> bool {
    forall|i: int, j: int| 0 <= i < j < counts.len() ==> counts[i] < counts[j]
}

/// How many counts in the servo's backlog stand for a treat. The zero that the session
/// begins with does not.
pub open spec fn waiting(backlog: Seq<u32>) -> nat {
    if backlog.len() > 0 && backlog[0] == 0 {
        (backlog.len() - 1) as nat
    } else {
        backlog.len()
    }
}

impl Device {
    /// The session's own backlog.
    pub open spec fn echoed(self) -> Seq<u32> {
        self.backlogs[self.session.reader as int]
    }

    /// The count that the session holds the next message against.
    pub open spec fn asked(self) -> u32 {
        crate::session::held(self.session.asked, self.echoed())
    }

    /// The highest count that the session has announced.
    pub open spec fn newest(self) -> u32 {
        self.announced.last()
    }

    /// How many counts the session has announced, but for the zero that it begins with.
    pub open spec fn accepted(self) -> nat {
        (self.announced.len() - 1) as nat
    }

    /// The backlog that the servo polls.
    pub open spec fn wanted(self) -> Seq<u32> {
        self.backlogs[self.servo.reader as int]
    }

    /// One while a sweep is under way, else zero.
    pub open spec fn under_way(self) -> nat {
        if self.servo.phase is Sweeping {
            1
        } else {
            0
        }
    }

    /// How many counts the servo has acted on, to the end or not.
    pub open spec fn begun(self) -> nat {
        self.dispensed + self.under_way()
    }

    /// A device just started on a new channel, the session's task before the servo's or
    /// after it.
    pub open spec fn fresh(self) -> bool {
        &&& self.backlogs.len() == READERS
        &&& {
            ||| self.session.reader == 0 && self.servo.reader == 1 && self.wanted()
                == Seq::<u32>::empty()
            ||| self.session.reader == 1 && self.servo.reader == 0 && self.wanted() == seq![0u32]
        }
        &&& self.echoed() == seq![0u32]
        &&& self.session.asked == 0
        &&& self.session.pending is CheckLink
        &&& self.servo.phase is SettingUp
        &&& self.servo.last_treat_count == 0
        &&& self.announced == seq![0u32]
        &&& self.dispensed == 0
    }

    /// What holds of a device at all times.
    pub open spec fn inv(self) -> bool {
        let wanted = self.wanted();
        &&& self.servo.wf()
        &&& self.session.reader < self.backlogs.len()
        &&& self.servo.reader < self.backlogs.len()
        &&& self.session.reader != self.servo.reader
        // The announced counts rise from zero.
        &&& self.announced.len() > 0
        &&& self.announced[0] == 0
        &&& rising(self.announced)
        // The session knows the highest count, and has nothing else in its backlog.
        &&& self.session.asked == self.newest()
        &&& self.echoed().len() == 0 || self.echoed() == seq![self.newest()]
        // The servo's backlog is what was announced last, from above what was acted on.
        &&& wanted.len() <= self.announced.len()
        &&& wanted == self.announced.skip(self.announced.len() - wanted.len())
        &&& forall|i: int|
            0 <= i < wanted.len() && #[trigger] wanted[i] > 0 ==> wanted[i] > self.begun()
        // The tally.
        &&& self.dispensed == self.servo.last_treat_count
        &&& self.accepted() == self.begun() + waiting(wanted)
        &&& self.newest() >= self.accepted()
    }

    /// The device after a message, as the session's contract says.
    pub open spec fn after_message(self, topic: Seq<char>, payload: Seq<u8>) -> Device {
        let (session, backlogs) = self.session.heard(self.backlogs, topic, payload);
        match crate::session::verdict(self.asked(), topic, payload) {
            Ok(Verdict::Announce { count }) => Device {
                backlogs,
                session,
                announced: self.announced.push(count),
                ..self
            },
            _ => Device { backlogs, session, ..self },
        }
    }

    /// The device after any reply, as the session's contract says.
    pub open spec fn after_reply(self, reply: Reply) -> Device {
        match reply {
            Reply::Message { topic, payload } => self.after_message(topic@, payload@),
            _ => Device {
                session: Session {
                    pending: crate::session::follow_up(self.session.broker, reply),
                    ..self.session
                },
                ..self
            },
        }
    }

    /// The command that the servo's task gives next.
    pub open spec fn servo_command(self) -> Command {
        if self.servo.phase is SettingUp {
            self.servo.readied().1
        } else if self.servo.phase is Polling {
            self.servo.polled(crate::channel::head(self.wanted())).1
        } else {
            self.servo.swept().1
        }
    }

    /// The device after a step of the servo's task, as that task's contract says.
    pub open spec fn after_servo_step(self) -> Device {
        if self.servo.phase is SettingUp {
            Device { servo: self.servo.readied().0, ..self }
        } else if self.servo.phase is Polling {
            Device {
                backlogs: crate::channel::taken(self.backlogs, self.servo.reader as int),
                servo: self.servo.polled(crate::channel::head(self.wanted())).0,
                ..self
            }
        } else {
            Device {
                servo: self.servo.swept().0,
                dispensed: if self.servo_command() is Release {
                    self.dispensed + 1
                } else {
                    self.dispensed
                },
                ..self
            }
        }
    }

    /// The device after an event.
    pub open spec fn after(self, event: Event) -> Device {
        match event {
            Event::Reply { reply } => self.after_reply(reply),
            Event::ServoStep => self.after_servo_step(),
        }
    }

    /// The device after one event after another.
    pub open spec fn run(self, events: Seq<Event>) -> Device
        decreases events.len(),
    {
        if events.len() == 0 {
            self
        } else {
            self.run(events.drop_last()).after(events.last())
        }
    }

    /// How many steps the servo's task takes until there is nothing left for it to do.
    pub open spec fn steps_left(self) -> nat {
        phase_steps(self.servo.phase) + backlog_steps(self.wanted())
    }

    /// The servo has nothing to do.
    pub open spec fn idle(self) -> bool {
        &&& self.servo.phase is Polling
        &&& self.wanted() == Seq::<u32>::empty()
    }

    /// The device once the servo has caught up, if no message arrives meanwhile.
    pub open spec fn caught_up(self) -> Device {
        self.run(servo_steps(self.steps_left()))
    }
}

/// How many steps there are to the next poll: one that sets the pin up, or those that end
/// the sweep under way.
pub open spec fn phase_steps(phase: Phase) -> nat {
    match phase {
        Phase::SettingUp => 1,
        Phase::Polling => 0,
        Phase::Sweeping { done } => (SWEEP_LENGTH + 1 - done) as nat,
    }
}

/// How many steps a backlog takes: a whole sweep and the release of the arm for every
/// treat, one poll for a zero.
pub open spec fn backlog_steps(backlog: Seq<u32>) -> nat
    decreases backlog.len(),
{
    if backlog.len() == 0 {
        0
    } else {
        (if backlog[0] > 0 {
            (SWEEP_LENGTH + 1) as nat
        } else {
            1
        }) + backlog_steps(backlog.drop_first())
    }
}

/// This many steps of the servo's task in a row.
pub open spec fn servo_steps<'a>(n: nat) -> Seq<Event<'a>> {
    Seq::new(n, |i: int| Event::ServoStep)
}

/// The device that two tasks make just after they were started on a channel.
pub open spec fn started(channel: TreatChannel, session: Session, servo: Servo) -> Device {
    Device {
        backlogs: channel@,
        session,
        servo,
        announced: seq![0u32],
        dispensed: 0,
    }
}

/// Starts the two tasks on a channel of their own, which has room for both.
pub fn launch(broker: Broker) -> (tasks: (TreatChannel, Session, Servo))
    ensures
        started(tasks.0, tasks.1, tasks.2).fresh(),
        tasks.0.wf(),
        tasks.0.writers() == 2,
        tasks.0@ == seq![seq![0u32], Seq::empty()],
        tasks.1 == (Session {
            reader: 0,
            writer: 0,
            broker,
            asked: 0,
            pending: Request::CheckLink,
        }),
        tasks.2 == (Servo {
            reader: 1,
            writer: 1,
            last_treat_count: 0,
            treat_count: 0,
            phase: Phase::SettingUp,
        }),
{
    let mut channel = TreatChannel::new();
    let session = Session::start(&mut channel, broker).unwrap();
    let servo = Servo::start(&mut channel).unwrap();
    assert(channel@[0] =~= seq![0u32]);
    assert(channel@ =~= seq![seq![0u32], Seq::empty()]);
    (channel, session, servo)
}

/// A device just started is in order.
proof fn lemma_fresh(device: Device)
    requires
        device.fresh(),
    ensures
        device.inv(),
{
    assert(device.wanted() =~= device.announced.skip(
        device.announced.len() - device.wanted().len(),
    ));
}

/// A message leaves a device in order.
proof fn lemma_message(device: Device, topic: Seq<char>, payload: Seq<u8>)
    requires
        device.inv(),
    ensures
        device.after_message(topic, payload).inv(),
{
    let after = device.after_message(topic, payload);
    match crate::session::verdict(device.asked(), topic, payload) {
        Ok(Verdict::Announce { count }) => {
            assert(after.echoed() =~= seq![count]);
            assert(after.wanted() == device.wanted().push(count));
            assert(after.wanted() =~= after.announced.skip(
                after.announced.len() - after.wanted().len(),
            ));
        },
        _ => {
            assert(after.wanted() == device.wanted());
        },
    }
}

/// A step of the servo's task leaves a device in order.
proof fn lemma_servo_step(device: Device)
    requires
        device.inv(),
    ensures
        device.after_servo_step().inv(),
{
    let after = device.after_servo_step();
    let wanted = device.wanted();
    assert(after.echoed() == device.echoed());
    if device.servo.phase is Polling && wanted.len() > 0 {
        assert(after.wanted() == wanted.drop_first());
        assert(after.wanted() =~= after.announced.skip(
            after.announced.len() - after.wanted().len(),
        ));
        assert(rising(wanted));
        assert forall|i: int|
            0 <= i < after.wanted().len() && #[trigger] after.wanted()[i] > 0 implies
            after.wanted()[i] > after.begun() by {
            assert(wanted[0] < wanted[i + 1]);
        }
        if wanted.len() > 1 {
            assert(wanted[0] < wanted[1]);
        }
    }
}

/// Whatever happens, a device that was in order still is.
proof fn lemma_run(device: Device, events: Seq<Event>)
    requires
        device.inv(),
    ensures
        device.run(events).inv(),
    decreases events.len(),
{
    if events.len() > 0 {
        lemma_run(device, events.drop_last());
        let before = device.run(events.drop_last());
        match events.last() {
            Event::Reply { reply } => match reply {
                Reply::Message { topic, payload } => lemma_message(before, topic@, payload@),
                _ => {},
            },
            Event::ServoStep => lemma_servo_step(before),
        }
    }
}

/// No treat comes from nowhere and none goes missing. Whatever messages arrive, however
/// often the connection is lost, and whenever the servo's task runs, every count that the
/// session has announced has been dispensed, is being dispensed, or waits for the servo.
/// No more treats are dispensed than the highest count asked for, and the session always
/// knows what that count is.
pub proof fn law_every_count_is_accounted_for(device: Device, events: Seq<Event>)
    requires
        device.fresh(),
    ensures
        ({
            let after = device.run(events);
            &&& after.accepted() == after.dispensed + after.under_way() + waiting(after.wanted())
            &&& after.dispensed <= after.accepted() <= after.newest()
            &&& after.servo.last_treat_count == after.dispensed
            &&& after.asked() == after.newest()
        }),
{
    lemma_fresh(device);
    lemma_run(device, events);
}

/// The counts that the session announces rise strictly, from the zero that it begins with,
/// whatever replies it has: repeated, stale and unreadable messages, lost connections and
/// new ones. What waits for the servo is always the latest of them.
pub proof fn law_announced_counts_rise(device: Device, events: Seq<Event>)
    requires
        device.fresh(),
    ensures
        ({
            let after = device.run(events);
            &&& after.announced.len() > 0
            &&& after.announced[0] == 0
            &&& forall|i: int, j: int|
                0 <= i < j < after.announced.len() ==> after.announced[i] < after.announced[j]
            &&& after.wanted().is_suffix_of(after.announced)
        }),
{
    lemma_fresh(device);
    lemma_run(device, events);
    let after = device.run(events);
    assert(after.wanted().is_suffix_of(after.announced));
}

/// A reply other than a message touches neither the channel nor a count: the count that was
/// asked for so far outlives any number of connections, and so does what waits for the
/// servo.
pub proof fn law_reconnecting_changes_no_count(device: Device, reply: Reply)
    requires
        !(reply is Message),
    ensures
        device.after_reply(reply).asked() == device.asked(),
        device.after_reply(reply).backlogs == device.backlogs,
        device.after_reply(reply).announced == device.announced,
        device.after_reply(reply).servo == device.servo,
        device.after_reply(reply).session.broker == device.session.broker,
{
}

/// Whatever happens, the session looks up the host of the broker that it was started for,
/// and joins by the name and the password that it was given for it.
pub proof fn law_broker_is_kept(device: Device, events: Seq<Event>)
    requires
        device.fresh(),
    ensures
        ({
            let after = device.run(events).session;
            &&& after.broker == device.session.broker
            &&& after.pending matches Request::ResolveHost { host } ==> host
                == device.session.broker.host
            &&& after.pending matches Request::JoinBroker { options } ==> options
                == crate::session::client_options(device.session.broker)
        }),
    decreases events.len(),
{
    if events.len() > 0 {
        law_broker_is_kept(device, events.drop_last());
    }
}

/// The pin is set up by the first step of the servo's task, and never again.
pub proof fn law_pin_is_set_up_once(device: Device, events: Seq<Event>)
    requires
        device.fresh(),
    ensures
        device.run(events).servo_command() is SetUp <==> forall|i: int|
            0 <= i < events.len() ==> !(#[trigger] events[i] is ServoStep),
    decreases events.len(),
{
    if events.len() > 0 {
        let earlier = events.drop_last();
        law_pin_is_set_up_once(device, earlier);
        assert(events[events.len() - 1] == events.last());
        if device.run(events).servo_command() is SetUp {
            assert forall|i: int| 0 <= i < events.len() implies !(#[trigger] events[i]
                is ServoStep) by {
                if i < earlier.len() {
                    assert(!(earlier[i] is ServoStep));
                }
            }
        }
        if forall|i: int| 0 <= i < events.len() ==> !(#[trigger] events[i] is ServoStep) {
            assert forall|i: int| 0 <= i < earlier.len() implies !(#[trigger] earlier[i]
                is ServoStep) by {
                assert(!(events[i] is ServoStep));
            }
        }
    }
}

/// A message that raises the count is always announced; its count is then the one that the
/// next message is held against, and stands last in the servo's backlog.
pub proof fn law_higher_count_is_announced(
    device: Device,
    events: Seq<Event>,
    topic: Seq<char>,
    payload: Seq<u8>,
    count: u32,
)
    requires
        device.fresh(),
        topic.len() > 0,
        crate::count::count_of(payload) == Ok::<u32, PayloadError>(count),
        count > device.run(events).newest(),
    ensures
        ({
            let before = device.run(events);
            let after = before.after_message(topic, payload);
            &&& after.asked() == count
            &&& after.newest() == count
            &&& after.accepted() == before.accepted() + 1
            &&& after.wanted() == before.wanted().push(count)
        }),
{
    lemma_fresh(device);
    lemma_run(device, events);
    lemma_message(device.run(events), topic, payload);
}

/// A count that waits for the servo is dispensed as soon as the servo polls: the poll
/// begins a sweep.
pub proof fn law_waiting_count_is_dispensed(device: Device, events: Seq<Event>)
    requires
        device.fresh(),
        device.run(events).servo.phase is Polling,
        device.run(events).wanted().len() > 0,
        device.run(events).wanted()[0] > 0,
    ensures
        device.run(events).servo_command() == crate::servo::drive(0),
        device.run(events).after_servo_step().servo.phase is Sweeping,
{
    lemma_fresh(device);
    lemma_run(device, events);
}

/// Every step brings the servo's task one nearer to having nothing to do.
proof fn lemma_step_counts(device: Device)
    requires
        device.inv(),
        device.steps_left() > 0,
    ensures
        device.after_servo_step().steps_left() == device.steps_left() - 1,
{
}

/// The device after the first `n` of the steps that are left.
proof fn lemma_catching_up(device: Device, n: nat)
    requires
        device.inv(),
        n <= device.steps_left(),
    ensures
        ({
            let after = device.run(servo_steps(n));
            &&& after.inv()
            &&& after.steps_left() == device.steps_left() - n
            &&& after.accepted() == device.accepted()
        }),
    decreases n,
{
    if n > 0 {
        lemma_catching_up(device, (n - 1) as nat);
        assert(servo_steps(n).drop_last() =~= servo_steps((n - 1) as nat));
        let before = device.run(servo_steps((n - 1) as nat));
        lemma_step_counts(before);
        lemma_servo_step(before);
    }
}

/// The device once the servo has caught up.
proof fn lemma_caught_up(device: Device)
    requires
        device.inv(),
    ensures
        device.caught_up().idle(),
        device.caught_up().dispensed == device.accepted(),
        device.caught_up().servo.last_treat_count == device.accepted(),
{
    lemma_catching_up(device, device.steps_left());
    assert(device.caught_up().wanted() =~= Seq::<u32>::empty());
}

/// The servo always catches up: left alone it comes to rest after a known number of steps,
/// and by then every count that was announced has been dispensed, one sweep for each.
pub proof fn law_servo_catches_up(device: Device, events: Seq<Event>)
    requires
        device.fresh(),
    ensures
        ({
            let before = device.run(events);
            let after = before.caught_up();
            &&& after.idle()
            &&& after.dispensed == before.accepted()
            &&& after.servo.last_treat_count == before.accepted()
        }),
{
    lemma_fresh(device);
    lemma_run(device, events);
    lemma_caught_up(device.run(events));
}

/// To dispense a treat, increment the topic's integer value by one. Whatever has happened
/// before, and whatever the servo is at, a message that does so makes the servo dispense
/// exactly one treat more than it would have dispensed without it.
pub proof fn law_increment_dispenses_one_treat(
    device: Device,
    events: Seq<Event>,
    topic: Seq<char>,
)
    requires
        device.fresh(),
        device.run(events).newest() < u32::MAX,
        topic.len() > 0,
    ensures
        ({
            let before = device.run(events);
            let payload = crate::count::decimal((before.newest() + 1) as nat);
            let told = before.after_message(topic, payload);
            &&& told.caught_up().dispensed == before.caught_up().dispensed + 1
            &&& told.caught_up().idle()
            &&& told.asked() == before.newest() + 1
            &&& told.newest() == before.newest() + 1
        }),
{
    let before = device.run(events);
    let count = (before.newest() + 1) as u32;
    let payload = crate::count::decimal(count as nat);
    lemma_fresh(device);
    lemma_run(device, events);
    crate::count::law_decimal_reads_back(count);
    law_higher_count_is_announced(device, events, topic, payload, count);
    lemma_message(before, topic, payload);
    lemma_caught_up(before);
    lemma_caught_up(before.after_message(topic, payload));
}

/// A message that does not raise the count, be it blank, unreadable or one that was seen
/// before, changes nothing: nothing is announced, and the count that the next message is
/// held against stays.
pub proof fn law_stale_count_is_ignored(
    device: Device,
    events: Seq<Event>,
    topic: Seq<char>,
    payload: Seq<u8>,
)
    requires
        device.fresh(),
        topic.len() > 0 ==> match crate::count::count_of(payload) {
            Ok(count) => count <= device.run(events).newest(),
            Err(_) => true,
        },
    ensures
        ({
            let before = device.run(events);
            let after = before.after_message(topic, payload);
            &&& after.wanted() == before.wanted()
            &&& after.accepted() == before.accepted()
            &&& after.newest() == before.newest()
            &&& after.asked() == before.asked()
            &&& after.asked() == before.newest()
        }),
{
    lemma_fresh(device);
    lemma_run(device, events);
    lemma_message(device.run(events), topic, payload);
}

} // verus!
