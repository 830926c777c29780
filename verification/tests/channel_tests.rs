use treat_dispenser::channel::{TreatChannel, CAPACITY, READERS, WRITERS};

#[test]
fn readers_are_numbered_until_there_is_no_room() {
    let mut channel = TreatChannel::new();
    assert_eq!(channel.subscribe(), Some(0));
    assert_eq!(channel.subscribe(), Some(1));
    assert_eq!(channel.subscribe(), None);
    assert_eq!(READERS, 2);
}

#[test]
fn writers_are_numbered_until_there_is_no_room() {
    let mut channel = TreatChannel::new();
    assert_eq!(channel.register(), Some(0));
    assert_eq!(channel.register(), Some(1));
    assert_eq!(channel.register(), None);
    assert_eq!(WRITERS, 2);
}

#[test]
fn every_writer_is_heard() {
    let mut channel = TreatChannel::new();
    let reader = channel.subscribe().unwrap();
    let first = channel.register().unwrap();
    let second = channel.register().unwrap();
    channel.announce(second, 7);
    channel.announce(first, 8);
    assert_eq!(channel.take(reader), Some(7));
    assert_eq!(channel.take(reader), Some(8));
    assert_eq!(channel.take(reader), None);
}

#[test]
fn every_reader_has_every_count() {
    let mut channel = TreatChannel::new();
    let writer = channel.register().unwrap();
    let first = channel.subscribe().unwrap();
    let second = channel.subscribe().unwrap();
    channel.announce(writer, 3);
    channel.announce(writer, 4);
    assert_eq!(channel.take(first), Some(3));
    assert_eq!(channel.take(first), Some(4));
    assert_eq!(channel.take(first), None);
    assert_eq!(channel.take(second), Some(3));
    assert_eq!(channel.take(second), Some(4));
    assert_eq!(channel.take(second), None);
}

#[test]
fn nothing_is_lost_however_much_is_announced() {
    let mut channel = TreatChannel::new();
    let reader = channel.subscribe().unwrap();
    let writer = channel.register().unwrap();
    assert_eq!(CAPACITY, 2);
    for count in 1..=100 {
        channel.announce(writer, count);
    }
    for count in 1..=100 {
        assert_eq!(channel.take(reader), Some(count));
    }
    assert_eq!(channel.take(reader), None);
}

#[test]
fn a_quick_reader_and_a_slow_one_take_the_same() {
    let mut channel = TreatChannel::new();
    let writer = channel.register().unwrap();
    let quick = channel.subscribe().unwrap();
    let slow = channel.subscribe().unwrap();
    for count in 1..=5 {
        channel.announce(writer, count);
        assert_eq!(channel.take(quick), Some(count));
    }
    for count in 1..=5 {
        assert_eq!(channel.take(slow), Some(count));
    }
    assert_eq!(channel.take(slow), None);
}

#[test]
fn a_late_reader_has_only_what_comes_after_it() {
    let mut channel = TreatChannel::new();
    let writer = channel.register().unwrap();
    channel.announce(writer, 9);
    let first = channel.subscribe().unwrap();
    assert_eq!(channel.take(first), None);
    channel.announce(writer, 0);
    let second = channel.subscribe().unwrap();
    assert_eq!(channel.take(second), None);
    channel.announce(writer, 5);
    assert_eq!(channel.take(second), Some(5));
    channel.announce(writer, 6);
    assert_eq!(channel.take(first), Some(0));
    assert_eq!(channel.take(first), Some(5));
    assert_eq!(channel.take(first), Some(6));
    assert_eq!(channel.take(first), None);
    assert_eq!(channel.take(second), Some(6));
    assert_eq!(channel.take(second), None);
}

/// Every way of announcing to, and taking from, two readers in nine steps, held against
/// two plain queues.
#[test]
fn backlogs_are_what_plain_queues_would_be() {
    for plan in 0..3usize.pow(9) {
        let mut channel = TreatChannel::new();
        let writer = channel.register().unwrap();
        let mut queues: [Vec<u32>; 2] = [Vec::new(), Vec::new()];
        let readers = [channel.subscribe().unwrap(), channel.subscribe().unwrap()];
        let mut rest = plan;
        for step in 0..9u32 {
            match rest % 3 {
                2 => {
                    channel.announce(writer, step);
                    for queue in queues.iter_mut() {
                        queue.push(step);
                    }
                }
                who => {
                    let expected = if queues[who].is_empty() { None } else { Some(queues[who].remove(0)) };
                    assert_eq!(channel.take(readers[who]), expected);
                }
            }
            rest /= 3;
        }
    }
}
