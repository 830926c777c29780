//! The task that turns the servo: one sweep of the arm for every treat.

use crate::channel::TreatChannel;
use vstd::prelude::*;

verus! {

/// How long the task rests, in milliseconds, when there is nothing to dispense.
pub const SLEEP_DURATION: u32 = 6_000;

/// How long the arm is left in each position of a sweep, in milliseconds.
pub const HOLD_DURATION: u32 = 10;

/// The frequency of the pulses, in hertz.
pub const PWM_FREQUENCY: u32 = 50;

/// The resolution of the duty cycle, in bits.
pub const DUTY_RESOLUTION: u8 = 14;

/// Where the lower half of a sweep begins, as a numerator over [`DUTY_FRACTION`].
pub const MIN_DUTY_CYCLE: u16 = 1000;

/// Where the lower half ends. The arm does not reach it.
pub const LOWER_END: u16 = 1600;

/// Where the upper half of a sweep begins.
pub const UPPER_START: u16 = 2900;

/// Where the upper half ends. The arm does not reach it.
pub const MAX_DUTY_CYCLE: u16 = 4000;

/// The denominator of every duty cycle.
pub const DUTY_FRACTION: u16 = 65535;

/// How many positions the lower half has.
pub const LOWER_LENGTH: u16 = 600;

/// How many positions a whole sweep has.
pub const SWEEP_LENGTH: u16 = 1700;

/// What the firmware is to do next.
#[derive(Debug, Clone, Copy, PartialEq, Eq, Structural)]
pub enum Command {
    /// Have the pin make pulses of this frequency in hertz, with a duty cycle of this
    /// resolution in bits, and set the duty cycle to this many percent.
    SetUp { frequency: u32, resolution: u8, duty_percent: u8 },
    /// Rest for this many milliseconds.
    Rest { millis: u32 },
    /// Set the duty cycle to a fraction, then wait for this many milliseconds.
    Drive { numerator: u16, denominator: u16, hold_millis: u32 },
    /// Set the duty cycle to zero.
    Release,
}

/// What the task is at.
#[derive(Debug, Clone, Copy, PartialEq, Eq, Structural)]
pub enum Phase {
    /// About to set the pin up.
    SettingUp,
    /// About to look for a new count.
    Polling,
    /// In a sweep, of which this many positions have been driven to.
    Sweeping { done: u16 },
}

/// The numerators of one sweep: up through the lower half, then up through the upper.
pub open spec fn sweep() -> Seq<u16> {
    Seq::new((LOWER_END - MIN_DUTY_CYCLE) as nat, |i: int| (MIN_DUTY_CYCLE + i) as u16) + Seq::new(
        (MAX_DUTY_CYCLE - UPPER_START) as nat,
        |i: int| (UPPER_START + i) as u16,
    )
}

/// The command that drives the arm to one position of the sweep.
pub open spec fn drive(position: int) -> Command {
    Command::Drive {
        numerator: sweep()[position],
        denominator: DUTY_FRACTION,
        hold_millis: HOLD_DURATION,
    }
}

/// The count that a poll goes by: nothing to take counts as zero.
pub open spec fn count_or_zero(count: Option<u32>) -> u32 {
    match count {
        Some(count) => count,
        None => 0,
    }
}

/// The servo's task.
#[derive(Debug, Clone, Copy, PartialEq, Eq, Structural)]
pub struct Servo {
    /// Its place among the channel's readers.
    pub reader: usize,
    /// Its place among the channel's writers. It has one, and never writes.
    pub writer: usize,
    /// How many treats it has dispensed.
    pub last_treat_count: u32,
    /// The count that the sweep under way, or the latest one, answers to.
    pub treat_count: u32,
    pub phase: Phase,
}

impl Servo {
    /// A sweep under way has begun, is not over, and answers to a count above that of the
    /// treats dispensed so far.
    pub open spec fn wf(self) -> bool {
        self.phase matches Phase::Sweeping { done } ==> {
            &&& 1 <= done <= SWEEP_LENGTH
            &&& self.last_treat_count < self.treat_count
        }
    }

    /// The first step of all: what the task is afterwards, and its command. The pulses
    /// begin with a duty cycle of zero.
    pub open spec fn readied(self) -> (Servo, Command) {
        (
            Servo { phase: Phase::Polling, ..self },
            Command::SetUp {
                frequency: PWM_FREQUENCY,
                resolution: DUTY_RESOLUTION,
                duty_percent: 0,
            },
        )
    }

    /// A poll that took `count`: what the task is afterwards, and its command.
    pub open spec fn polled(self, count: Option<u32>) -> (Servo, Command) {
        let treat_count = count_or_zero(count);
        if treat_count > self.last_treat_count {
            (Servo { treat_count, phase: Phase::Sweeping { done: 1 }, ..self }, drive(0))
        } else {
            (Servo { treat_count, ..self }, Command::Rest { millis: SLEEP_DURATION })
        }
    }

    /// The next step of a sweep: what the task is afterwards, and its command.
    pub open spec fn swept(self) -> (Servo, Command) {
        let done = self.phase->done;
        if done < SWEEP_LENGTH {
            (Servo { phase: Phase::Sweeping { done: (done + 1) as u16 }, ..self }, drive(done as int))
        } else {
            (
                Servo {
                    last_treat_count: (self.last_treat_count + 1) as u32,
                    phase: Phase::Polling,
                    ..self
                },
                Command::Release,
            )
        }
    }

    /// The task after `steps` steps of a sweep.
    pub open spec fn swept_times(self, steps: nat) -> Servo
        decreases steps,
    {
        if steps == 0 {
            self
        } else {
            self.swept_times((steps - 1) as nat).swept().0
        }
    }

    /// Subscribes to the channel, registers as a writer and begins with whatever is there to
    /// be taken, which is nothing. `None` if the channel has no room for another reader,
    /// or none for another writer.
    pub fn start(channel: &mut TreatChannel) -> (servo: Option<Servo>)
        requires
            old(channel).wf(),
        ensures
            final(channel).wf(),
            servo is Some <==> old(channel)@.len() < crate::channel::READERS
                && old(channel).writers() < crate::channel::WRITERS,
            servo matches Some(task) ==> {
                &&& task.wf()
                &&& task.reader == old(channel)@.len()
                &&& task.writer == old(channel).writers()
                &&& task.last_treat_count == 0
                &&& task.treat_count == 0
                &&& task.phase is SettingUp
                &&& final(channel).writers() == old(channel).writers() + 1
            },
            servo is None ==> final(channel).writers() == old(channel).writers(),
            final(channel)@ == if old(channel)@.len() < crate::channel::READERS {
                old(channel)@.push(Seq::empty())
            } else {
                old(channel)@
            },
    {
        match channel.subscribe() {
            None => None,
            Some(reader) => match channel.register() {
                None => None,
                Some(writer) => {
                    let last_treat_count: u32 = match channel.take(reader) {
                        Some(count) => count,
                        None => 0,
                    };
                    assert(channel@ =~= old(channel)@.push(Seq::empty()));
                    Some(
                        Servo {
                            reader,
                            writer,
                            last_treat_count,
                            treat_count: last_treat_count,
                            phase: Phase::SettingUp,
                        },
                    )
                },
            },
        }
    }

    /// Has the pin set up, before anything else.
    pub fn set_up(&mut self) -> (command: Command)
        requires
            old(self).wf(),
            old(self).phase is SettingUp,
        ensures
            final(self).wf(),
            (*final(self), command) == old(self).readied(),
    {
        self.phase = Phase::Polling;
        Command::SetUp {
            frequency: PWM_FREQUENCY,
            resolution: DUTY_RESOLUTION,
            duty_percent: 0,
        }
    }

    /// Decides on a poll that took `count`: a count above that of the treats dispensed so
    /// far begins a sweep, anything else is a reason to rest.
    pub fn poll(&mut self, count: Option<u32>) -> (command: Command)
        requires
            old(self).wf(),
            old(self).phase is Polling,
        ensures
            final(self).wf(),
            (*final(self), command) == old(self).polled(count),
    {
        self.treat_count = match count {
            Some(count) => count,
            None => 0,
        };
        if self.treat_count > self.last_treat_count {
            self.phase = Phase::Sweeping { done: 1 };
            Command::Drive {
                numerator: MIN_DUTY_CYCLE,
                denominator: DUTY_FRACTION,
                hold_millis: HOLD_DURATION,
            }
        } else {
            Command::Rest { millis: SLEEP_DURATION }
        }
    }

    /// Goes on with a sweep. Once the arm has been to every position it is released, and
    /// one more treat has been dispensed.
    pub fn advance(&mut self) -> (command: Command)
        requires
            old(self).wf(),
            old(self).phase is Sweeping,
        ensures
            final(self).wf(),
            (*final(self), command) == old(self).swept(),
    {
        let done: u16 = match self.phase {
            Phase::Sweeping { done } => done,
            _ => 0,
        };
        if done < SWEEP_LENGTH {
            let numerator: u16 = if done < LOWER_LENGTH {
                MIN_DUTY_CYCLE + done
            } else {
                UPPER_START + (done - LOWER_LENGTH)
            };
            self.phase = Phase::Sweeping { done: done + 1 };
            Command::Drive { numerator, denominator: DUTY_FRACTION, hold_millis: HOLD_DURATION }
        } else {
            self.last_treat_count = self.last_treat_count + 1;
            self.phase = Phase::Polling;
            Command::Release
        }
    }

    /// The next command of the task. The very first sets the pin up. Between two sweeps the
    /// task takes a count from the channel; otherwise it leaves the channel alone.
    pub fn step(&mut self, channel: &mut TreatChannel) -> (command: Command)
        requires
            old(self).wf(),
            old(channel).wf(),
            old(self).reader < old(channel)@.len(),
        ensures
            final(self).wf(),
            final(channel).wf(),
            final(channel).writers() == old(channel).writers(),
            old(self).phase is SettingUp ==> {
                &&& (*final(self), command) == old(self).readied()
                &&& final(channel)@ == old(channel)@
            },
            old(self).phase is Polling ==> {
                let reader = old(self).reader as int;
                &&& (*final(self), command) == old(self).polled(
                    crate::channel::head(old(channel)@[reader]),
                )
                &&& final(channel)@ == crate::channel::taken(old(channel)@, reader)
            },
            old(self).phase is Sweeping ==> {
                &&& (*final(self), command) == old(self).swept()
                &&& final(channel)@ == old(channel)@
            },
    {
        match self.phase {
            Phase::SettingUp => self.set_up(),
            Phase::Polling => {
                let count = channel.take(self.reader);
                self.poll(count)
            },
            Phase::Sweeping { .. } => self.advance(),
        }
    }
}

/// Every command that drives the arm asks for a position in one of the sweep's halves, and
/// for a fraction that is one: no more than the whole, of something.
pub proof fn law_drive_in_range(position: int)
    requires
        0 <= position < SWEEP_LENGTH,
    ensures
        drive(position) matches Command::Drive { numerator, denominator, .. } && {
            &&& MIN_DUTY_CYCLE <= numerator < LOWER_END || UPPER_START <= numerator
                < MAX_DUTY_CYCLE
            &&& 0 < denominator
            &&& numerator <= denominator
        },
{
}

/// The task as it is within a sweep, `steps` steps after its first command.
proof fn lemma_swept_times(task: Servo, steps: nat)
    requires
        task.wf(),
        task.phase == (Phase::Sweeping { done: 1 }),
        steps < SWEEP_LENGTH,
    ensures
        task.swept_times(steps) == (Servo {
            phase: Phase::Sweeping { done: (1 + steps) as u16 },
            ..task
        }),
    decreases steps,
{
    if steps > 0 {
        lemma_swept_times(task, (steps - 1) as nat);
    }
}

/// A poll that takes a count above that of the treats dispensed so far is followed by one
/// whole sweep, position by position and in order, then by the release of the arm; after
/// that exactly one treat more has been dispensed and the task polls again.
pub proof fn law_one_sweep_per_treat(task: Servo, count: u32)
    requires
        task.wf(),
        task.phase is Polling,
        count > task.last_treat_count,
    ensures
        ({
            let (swinging, first) = task.polled(Some(count));
            let last = swinging.swept_times((SWEEP_LENGTH - 1) as nat);
            &&& sweep().len() == SWEEP_LENGTH
            &&& first == drive(0)
            &&& forall|position: int|
                1 <= position < SWEEP_LENGTH ==> swinging.swept_times(
                    (position - 1) as nat,
                ).swept().1 == #[trigger] drive(position)
            &&& last.swept().1 is Release
            &&& last.swept().0 == Servo {
                last_treat_count: (task.last_treat_count + 1) as u32,
                treat_count: count,
                ..task
            }
        }),
{
    let (swinging, _) = task.polled(Some(count));
    assert forall|position: int| 1 <= position < SWEEP_LENGTH implies swinging.swept_times(
        (position - 1) as nat,
    ).swept().1 == #[trigger] drive(position) by {
        lemma_swept_times(swinging, (position - 1) as nat);
    }
    lemma_swept_times(swinging, (SWEEP_LENGTH - 1) as nat);
}

/// A poll that takes nothing, or a count that is no higher than that of the treats
/// dispensed so far, dispenses nothing.
pub proof fn law_no_treat_without_increase(task: Servo, count: Option<u32>)
    requires
        count_or_zero(count) <= task.last_treat_count,
    ensures
        task.polled(count).1 == (Command::Rest { millis: SLEEP_DURATION }),
        task.polled(count).0.phase == task.phase,
        task.polled(count).0.last_treat_count == task.last_treat_count,
{
}

/// Whatever a task's places in the channel and whatever it has counted, the pin is set up
/// for pulses of the servo's frequency, with no duty cycle yet. The task then polls, and is
/// otherwise as it was.
pub proof fn law_pin_is_set_up_for_the_servo(task: Servo)
    ensures
        task.readied().1 matches Command::SetUp { frequency, resolution, duty_percent } && {
            &&& frequency == PWM_FREQUENCY
            &&& resolution == DUTY_RESOLUTION
            &&& duty_percent == 0
        },
        task.readied().0.phase is Polling,
        task.readied().0.reader == task.reader,
        task.readied().0.writer == task.writer,
        task.readied().0.last_treat_count == task.last_treat_count,
        task.readied().0.treat_count == task.treat_count,
{
}

/// The arm begins at the bottom of the lower half and moves up one at a time; at the top of
/// that half it jumps to the bottom of the upper one, and it ends at the top of that. Each
/// position is a fraction of the same whole and is held equally long.
pub proof fn law_arm_moves_up(position: int)
    requires
        0 <= position < sweep().len(),
    ensures
        sweep().len() == (LOWER_END - MIN_DUTY_CYCLE) + (MAX_DUTY_CYCLE - UPPER_START),
        drive(position) is Drive,
        drive(position)->denominator == DUTY_FRACTION,
        drive(position)->hold_millis == HOLD_DURATION,
        drive(0)->numerator == MIN_DUTY_CYCLE,
        drive(sweep().len() - 1)->numerator == MAX_DUTY_CYCLE - 1,
        position + 1 < sweep().len() ==> drive(position + 1)->numerator == if drive(
            position,
        )->numerator == LOWER_END - 1 {
            UPPER_START as int
        } else {
            drive(position)->numerator + 1
        },
{
}

/// A poll begins a sweep exactly where it took a count that is above that of the treats
/// dispensed so far; otherwise the task rests. Either way it keeps the count that it took,
/// with zero for nothing, and its places in the channel, and no treat is counted yet.
pub proof fn law_poll_goes_by_the_count(task: Servo, count: Option<u32>)
    requires
        task.phase is Polling,
    ensures
        task.wf(),
        ({
            let (after, command) = task.polled(count);
            let higher = match count {
                Some(n) => n > task.last_treat_count,
                None => false,
            };
            &&& higher ==> {
                &&& command matches Command::Drive { numerator, denominator, hold_millis } && {
                    &&& numerator == MIN_DUTY_CYCLE
                    &&& denominator == DUTY_FRACTION
                    &&& hold_millis == HOLD_DURATION
                }
                &&& after.phase matches Phase::Sweeping { done } && done == 1
            }
            &&& !higher ==> {
                &&& command matches Command::Rest { millis } && millis == SLEEP_DURATION
                &&& after.phase is Polling
            }
            &&& count matches Some(n) ==> after.treat_count == n
            &&& count is None ==> after.treat_count == 0
            &&& after.last_treat_count == task.last_treat_count
            &&& after.reader == task.reader
            &&& after.writer == task.writer
            &&& after.wf()
        }),
{
}

/// Within a sweep every step drives the arm one position on, up to the last; the step after
/// that releases the arm, counts one treat and goes back to polling. Nothing else changes.
pub proof fn law_sweep_goes_on(task: Servo)
    requires
        task.wf(),
        task.phase is Sweeping,
    ensures
        ({
            let (after, command) = task.swept();
            let done = task.phase->done;
            &&& 1 <= done <= sweep().len()
            &&& done < sweep().len() ==> {
                &&& command matches Command::Drive { numerator, denominator, hold_millis } && {
                    &&& numerator == if done < LOWER_END - MIN_DUTY_CYCLE {
                        MIN_DUTY_CYCLE + done
                    } else {
                        MAX_DUTY_CYCLE - (sweep().len() - done)
                    }
                    &&& denominator == DUTY_FRACTION
                    &&& hold_millis == HOLD_DURATION
                }
                &&& after.phase matches Phase::Sweeping { done: now } && now == done + 1
                &&& after.last_treat_count == task.last_treat_count
            }
            &&& done == sweep().len() ==> {
                &&& command is Release
                &&& after.phase is Polling
                &&& after.last_treat_count == task.last_treat_count + 1
            }
            &&& after.treat_count == task.treat_count
            &&& after.reader == task.reader
            &&& after.writer == task.writer
            &&& after.wf()
        }),
{
}

/// Of a task that is not in a sweep nothing is asked for it to take a step. In a sweep it
/// has driven to some of the positions, and there is room for one treat more in its count.
pub proof fn law_every_task_can_go_on(task: Servo)
    ensures
        task.phase is SettingUp || task.phase is Polling ==> task.wf(),
        task.phase matches Phase::Sweeping { done } ==> (task.wf() <==> 0 < done <= sweep().len()
            && task.last_treat_count < task.treat_count),
{
}

} // verus!
