use embedded_hal::pwm::{ErrorType, SetDutyCycle};
use treat_dispenser::channel::TreatChannel;
use treat_dispenser::servo::{
    Command, Phase, Servo, DUTY_FRACTION, DUTY_RESOLUTION, HOLD_DURATION, MAX_DUTY_CYCLE, MIN_DUTY_CYCLE, PWM_FREQUENCY,
    SLEEP_DURATION,
};

fn started() -> (TreatChannel, Servo) {
    let mut channel = TreatChannel::new();
    let servo = Servo::start(&mut channel).unwrap();
    (channel, servo)
}

/// A task whose pin is set up.
fn ready() -> (TreatChannel, Servo) {
    let (channel, mut servo) = started();
    servo.set_up();
    (channel, servo)
}

/// Every command of one sweep, from the poll on.
fn whole_sweep(servo: &mut Servo, channel: &mut TreatChannel) -> Vec<Command> {
    let mut commands = vec![];
    loop {
        let command = servo.step(channel);
        commands.push(command);
        match command {
            Command::Drive { .. } => {}
            _ => break,
        }
    }
    commands
}

#[test]
fn settings_of_the_servo() {
    assert_eq!(SLEEP_DURATION, 6_000);
    assert_eq!(HOLD_DURATION, 10);
    assert_eq!(PWM_FREQUENCY, 50);
    assert_eq!(DUTY_RESOLUTION, 14);
    assert_eq!(MIN_DUTY_CYCLE, 1000);
    assert_eq!(MAX_DUTY_CYCLE, 4000);
    assert_eq!(DUTY_FRACTION, 65535);
}

#[test]
fn starts_with_nothing_dispensed() {
    let (_, servo) = started();
    assert_eq!(servo, Servo { reader: 0, writer: 0, last_treat_count: 0, treat_count: 0, phase: Phase::SettingUp });
}

#[test]
fn the_pin_is_set_up_first() {
    let (mut channel, mut servo) = started();
    channel.announce(servo.writer, 1);
    assert_eq!(servo.step(&mut channel), Command::SetUp { frequency: 50, resolution: 14, duty_percent: 0 });
    assert_eq!(servo.phase, Phase::Polling);
    assert_eq!(servo.last_treat_count, 0);
    assert_eq!(servo.step(&mut channel), Command::Drive { numerator: 1000, denominator: 65535, hold_millis: 10 });
}

#[test]
fn does_not_start_without_room_in_the_channel() {
    let mut channel = TreatChannel::new();
    channel.subscribe();
    channel.subscribe();
    assert_eq!(Servo::start(&mut channel), None);
    assert_eq!(channel.register(), Some(0));
    let mut channel = TreatChannel::new();
    channel.register();
    channel.register();
    assert_eq!(Servo::start(&mut channel), None);
    assert_eq!(channel.subscribe(), Some(1));
}

#[test]
fn rests_where_there_is_nothing_to_dispense() {
    let (mut channel, mut servo) = ready();
    assert_eq!(servo.step(&mut channel), Command::Rest { millis: 6_000 });
    channel.announce(servo.writer, 0);
    assert_eq!(servo.step(&mut channel), Command::Rest { millis: 6_000 });
    assert_eq!(servo.last_treat_count, 0);
}

#[test]
fn one_sweep_visits_both_halves_in_order() {
    let (mut channel, mut servo) = ready();
    channel.announce(servo.writer, 1);
    let commands = whole_sweep(&mut servo, &mut channel);
    let mut expected: Vec<Command> = (1000..1600u16)
        .chain(2900..4000u16)
        .map(|numerator| Command::Drive { numerator, denominator: 65535, hold_millis: 10 })
        .collect();
    expected.push(Command::Release);
    assert_eq!(commands, expected);
    assert_eq!(commands.len(), 1701);
    assert_eq!(servo.last_treat_count, 1);
    assert_eq!(servo.phase, Phase::Polling);
}

#[test]
fn a_count_that_jumps_dispenses_once() {
    let (mut channel, mut servo) = ready();
    channel.announce(servo.writer, 10);
    assert_eq!(whole_sweep(&mut servo, &mut channel).len(), 1701);
    assert_eq!(servo.last_treat_count, 1);
    assert_eq!(servo.treat_count, 10);
    assert_eq!(servo.step(&mut channel), Command::Rest { millis: 6_000 });
    channel.announce(servo.writer, 11);
    assert_eq!(whole_sweep(&mut servo, &mut channel).len(), 1701);
    assert_eq!(servo.last_treat_count, 2);
}

#[test]
fn a_sweep_leaves_the_channel_alone() {
    let (mut channel, mut servo) = ready();
    channel.announce(servo.writer, 1);
    servo.step(&mut channel);
    channel.announce(servo.writer, 2);
    channel.announce(servo.writer, 3);
    while servo.phase != Phase::Polling {
        servo.step(&mut channel);
    }
    assert_eq!(channel.take(servo.reader), Some(2));
    assert_eq!(channel.take(servo.reader), Some(3));
}

#[test]
fn polls_go_by_the_count_alone() {
    let quiet = Servo { reader: 0, writer: 0, last_treat_count: 5, treat_count: 5, phase: Phase::Polling };
    for (count, dispenses) in [(None, false), (Some(0), false), (Some(5), false), (Some(6), true), (Some(u32::MAX), true)] {
        let mut servo = quiet;
        let command = servo.poll(count);
        assert_eq!(matches!(command, Command::Drive { numerator: 1000, .. }), dispenses);
        assert_eq!(servo.phase == Phase::Sweeping { done: 1 }, dispenses);
        assert_eq!(servo.last_treat_count, 5);
    }
}

#[test]
fn the_last_treat_that_can_be_counted_is_dispensed() {
    let mut servo = Servo { reader: 0, writer: 0, last_treat_count: u32::MAX - 1, treat_count: 0, phase: Phase::Polling };
    servo.poll(Some(u32::MAX));
    while servo.phase != Phase::Polling {
        servo.advance();
    }
    assert_eq!(servo.last_treat_count, u32::MAX);
    assert_eq!(servo.poll(Some(u32::MAX)), Command::Rest { millis: 6_000 });
}

/// A pin that keeps the duty cycles that it was set to.
struct Recorder {
    duties: Vec<u16>,
}

impl ErrorType for Recorder {
    type Error = core::convert::Infallible;
}

impl SetDutyCycle for Recorder {
    fn max_duty_cycle(&self) -> u16 {
        16384
    }

    fn set_duty_cycle(&mut self, duty: u16) -> Result<(), Self::Error> {
        self.duties.push(duty);
        Ok(())
    }
}

#[test]
fn a_pin_follows_the_sweep() {
    let (mut channel, mut servo) = ready();
    let mut pin = Recorder { duties: vec![] };
    channel.announce(servo.writer, 1);
    for command in whole_sweep(&mut servo, &mut channel) {
        match command {
            Command::Drive { numerator, denominator, .. } => {
                pin.set_duty_cycle_fraction(numerator, denominator).unwrap();
            }
            Command::Release => pin.set_duty_cycle(0).unwrap(),
            Command::SetUp { .. } | Command::Rest { .. } => unreachable!(),
        }
    }
    assert_eq!(pin.duties.len(), 1701);
    assert_eq!(pin.duties[0], 250);
    assert_eq!(pin.duties[599], 399);
    assert_eq!(pin.duties[600], 725);
    assert_eq!(pin.duties[1699], 999);
    assert_eq!(pin.duties[1700], 0);
}

#[test]
fn three_counts_announced_before_the_first_poll_are_three_sweeps() {
    let (mut channel, mut servo) = ready();
    for count in 1..=3 {
        channel.announce(servo.writer, count);
    }
    for _ in 0..3 {
        assert_eq!(whole_sweep(&mut servo, &mut channel).len(), 1701);
    }
    assert_eq!(servo.last_treat_count, 3);
    assert_eq!(servo.step(&mut channel), Command::Rest { millis: 6_000 });
}

#[test]
fn the_arm_is_never_driven_between_the_halves() {
    let (mut channel, mut servo) = ready();
    channel.announce(servo.writer, 1);
    for command in whole_sweep(&mut servo, &mut channel) {
        if let Command::Drive { numerator, .. } = command {
            assert!((1000..1600).contains(&numerator) || (2900..4000).contains(&numerator));
        }
    }
}
