use std::collections::HashSet;

use chrono::{DateTime, Utc};
use hexafreeze::generator::nano::{Millisecond, Nanosecond};
use hexafreeze::generator::SequenceStep;
use hexafreeze::{Generator, HexaFreezeError, DEFAULT_EPOCH};

fn epoch_of(rfc3339: &str) -> Millisecond {
    Millisecond(
        DateTime::parse_from_rfc3339(rfc3339)
            .unwrap()
            .with_timezone(&Utc)
            .timestamp_millis(),
    )
}

#[test]
fn invalid_epoch() {
    assert_eq!(
        Generator::new(0, epoch_of("2177-01-01T00:00:00Z")).err().unwrap(),
        HexaFreezeError::EpochInTheFuture
    );
    assert_eq!(
        Generator::new(0, epoch_of("1930-01-01T00:00:00Z")).err().unwrap(),
        HexaFreezeError::EpochTooFarInThePast
    );
}

#[test]
fn node_id_validation() {
    assert!(Generator::new(0, Millisecond(DEFAULT_EPOCH)).is_ok());
    assert!(Generator::new(214, Millisecond(DEFAULT_EPOCH)).is_ok());
    assert!(Generator::new(1026, Millisecond(DEFAULT_EPOCH)).is_err());
}

#[test]
fn generation() {
    let mut gen = Generator::new(0, Millisecond(DEFAULT_EPOCH)).unwrap();
    let step = gen.get_sequence().unwrap();
    assert_ne!(gen.finish(step).unwrap().unwrap(), 0);
}

#[test]
fn duplicate_generation_test() {
    // A clock that moves forward by one millisecond every 5000 calls; a call told to wait
    // sleeps one millisecond at a time (the clock moving with it) until the library hands
    // out its id.
    const ID_COUNT: usize = 4_096_00;
    let start = DEFAULT_EPOCH + 1_000;
    let mut gen = Generator::new_at(10, Millisecond(DEFAULT_EPOCH), Nanosecond(start * 1_000_000)).unwrap();
    let mut seen: HashSet<i64> = HashSet::with_capacity(ID_COUNT);
    let mut clock = start;
    let mut last_ts = i64::MIN;
    let mut waits = 0;
    for i in 0..ID_COUNT {
        if i % 5000 == 0 && i > 0 {
            clock += 1;
        }
        let step = gen.get_sequence_at(Millisecond(clock)).unwrap();
        let fresh = if let SequenceStep::Wait { until, .. } = step {
            waits += 1;
            clock += 1;
            while clock < until.0 {
                clock += 1;
            }
            Nanosecond(clock * 1_000_000)
        } else {
            Nanosecond(0)
        };
        let id = gen.finish_at(step, fresh).unwrap();
        assert!(seen.insert(id), "duplicate id {}", id);
        assert!(id >> 22 >= last_ts);
        last_ts = id >> 22;
    }
    assert!(waits > 0);
}

#[test]
fn far_epochs_are_refused() {
    let now = Nanosecond(DEFAULT_EPOCH * 1_000_000);
    assert_eq!(
        Generator::new_at(0, epoch_of("2300-01-01T00:00:00Z"), now).err().unwrap(),
        HexaFreezeError::EpochInTheFuture
    );
    assert_eq!(
        Generator::new_at(0, epoch_of("1600-01-01T00:00:00Z"), now).err().unwrap(),
        HexaFreezeError::EpochTooFarInThePast
    );
    assert_eq!(
        Generator::new(0, Millisecond(i64::MAX)).err().unwrap(),
        HexaFreezeError::EpochInTheFuture
    );
    assert_eq!(
        Generator::new(0, Millisecond(i64::MIN)).err().unwrap(),
        HexaFreezeError::EpochTooFarInThePast
    );
}

#[test]
fn a_wait_is_stamped_after_the_slot_s_previous_id() {
    let mut gen = Generator::new_at(10, Millisecond(DEFAULT_EPOCH), Nanosecond(DEFAULT_EPOCH * 1_000_000)).unwrap();
    let t = DEFAULT_EPOCH + 50;
    let first = gen.generate_at(Millisecond(t), Nanosecond(0)).unwrap();
    for _ in 1..4096 {
        gen.generate_at(Millisecond(t), Nanosecond(0)).unwrap();
    }
    let step = gen.get_sequence_at(Millisecond(t)).unwrap();
    assert_eq!(step, SequenceStep::Wait { seq: 0, until: Millisecond(t + 2) });
    let id = gen.finish_at(step, Nanosecond((t + 2) * 1_000_000)).unwrap();
    assert_ne!(id, first);
    assert_eq!(id >> 22, (first >> 22) + 1);
    assert_eq!(id & 0xFFF, first & 0xFFF);
}

#[test]
fn new_at_checks_node_before_epoch() {
    let now = Nanosecond(DEFAULT_EPOCH * 1_000_000);
    assert_eq!(
        Generator::new_at(-1, Millisecond(DEFAULT_EPOCH + 10), now).err().unwrap(),
        HexaFreezeError::NodeIdTooLarge
    );
    assert_eq!(
        Generator::new_at(5, Millisecond(DEFAULT_EPOCH + 10), now).err().unwrap(),
        HexaFreezeError::EpochInTheFuture
    );
    let gen = Generator::new_at(5, Millisecond(DEFAULT_EPOCH), now).unwrap();
    assert_eq!(gen.node_id(), 5);
    assert_eq!(gen.epoch(), Millisecond(DEFAULT_EPOCH));
}

#[test]
fn sequence_steps_follow_the_counter_and_the_slots() {
    let now = Nanosecond(DEFAULT_EPOCH * 1_000_000);
    let mut gen = Generator::new_at(1, Millisecond(DEFAULT_EPOCH), now).unwrap();
    // First call on slot 0, after its last use at millisecond 0: ready, stamped one
    // millisecond later.
    assert_eq!(
        gen.get_sequence_at(Millisecond(500)),
        Ok(SequenceStep::Ready { seq: 0, at: Millisecond(501) })
    );
    assert_eq!(
        gen.get_sequence_at(Millisecond(500)),
        Ok(SequenceStep::Ready { seq: 1, at: Millisecond(501) })
    );
    // A reading before the slot's last use (slot 2 was last used at 0).
    assert_eq!(
        gen.get_sequence_at(Millisecond(-3)),
        Err(HexaFreezeError::ClockWentBackInTime)
    );
    for _ in 3..4096 {
        gen.get_sequence_at(Millisecond(700)).unwrap();
    }
    // Slot 0 again, in the millisecond of its last use: wait.
    assert_eq!(
        gen.get_sequence_at(Millisecond(500)),
        Ok(SequenceStep::Wait { seq: 0, until: Millisecond(502) })
    );
    // Slot 1 again, before its last use.
    assert_eq!(
        gen.get_sequence_at(Millisecond(499)),
        Err(HexaFreezeError::ClockWentBackInTime)
    );
    // Slot 2 was set to -3 by the failed call.
    assert_eq!(
        gen.get_sequence_at(Millisecond(-3)),
        Ok(SequenceStep::Wait { seq: 2, until: Millisecond(-1) })
    );
}

#[test]
fn ids_carry_timestamp_node_and_sequence() {
    let epoch = Millisecond(DEFAULT_EPOCH);
    let mut gen = Generator::new_at(7, epoch, Nanosecond(DEFAULT_EPOCH * 1_000_000)).unwrap();
    let id = gen.generate_at(Millisecond(DEFAULT_EPOCH + 41), Nanosecond(0)).unwrap();
    assert_eq!(id, (42 << 22) | (7 << 12));
    let id = gen.generate_at(Millisecond(DEFAULT_EPOCH + 41), Nanosecond(0)).unwrap();
    assert_eq!(id, (42 << 22) | (7 << 12) | 1);
    // create_id rounds the time after the epoch down to whole milliseconds.
    let id = gen.create_id(Nanosecond((DEFAULT_EPOCH + 5) * 1_000_000 + 999_999), 3).unwrap();
    assert_eq!(id, (5 << 22) | (7 << 12) | 3);
}

#[test]
fn ids_past_the_timestamp_range_fail() {
    let gen = Generator::new_at(0, Millisecond(0), Nanosecond(0)).unwrap();
    let max = 2_199_023_255_551i64;
    assert_eq!(gen.create_id(Nanosecond(max * 1_000_000), 0), Ok(max << 22));
    assert_eq!(
        gen.create_id(Nanosecond(max * 1_000_000 + 1), 0),
        Err(HexaFreezeError::EpochTooFarInThePast)
    );
    let step = SequenceStep::Ready { seq: 4, at: Millisecond(max + 1) };
    assert_eq!(gen.finish_at(step, Nanosecond(0)), Err(HexaFreezeError::EpochTooFarInThePast));
    let step = SequenceStep::Wait { seq: 4, until: Millisecond(2) };
    assert_eq!(gen.finish_at(step, Nanosecond(3_000_000)), Ok((3 << 22) | 4));
}

#[test]
fn generators_for_different_nodes_differ() {
    let now = Nanosecond(DEFAULT_EPOCH * 1_000_000);
    let mut a = Generator::new_at(1, Millisecond(DEFAULT_EPOCH), now).unwrap();
    let mut b = Generator::new_at(2, Millisecond(DEFAULT_EPOCH), now).unwrap();
    let t = Millisecond(DEFAULT_EPOCH + 100);
    let ia = a.generate_at(t, Nanosecond(0)).unwrap();
    let ib = b.generate_at(t, Nanosecond(0)).unwrap();
    assert_ne!(ia, ib);
    assert_eq!(ia >> 22, ib >> 22);
}

#[test]
fn an_epoch_that_passes_its_check_stamps_ids() {
    let max = 2_199_023_255_551i64;
    let now = Nanosecond((DEFAULT_EPOCH + max) * 1_000_000);
    let gen = Generator::new_at(3, Millisecond(DEFAULT_EPOCH), now).unwrap();
    assert_eq!(gen.create_id(now, 9), Ok((max << 22) | (3 << 12) | 9));
    let later = Nanosecond(now.0 + 1);
    assert!(Generator::new_at(3, Millisecond(DEFAULT_EPOCH), later).is_err());
    assert_eq!(gen.create_id(later, 9), Err(HexaFreezeError::EpochTooFarInThePast));
}

#[test]
fn finish_waits_for_the_clock() {
    let gen = Generator::new(4, Millisecond(DEFAULT_EPOCH)).unwrap();
    assert_eq!(gen.finish(SequenceStep::Wait { seq: 1, until: Millisecond(i64::MAX) }), None);
    let id = gen.finish(SequenceStep::Wait { seq: 1, until: Millisecond(DEFAULT_EPOCH) });
    let id = id.unwrap().unwrap();
    assert_eq!(id & 0xFFF, 1);
    assert_eq!((id >> 12) & 0x3FF, 4);
    let step = SequenceStep::Ready { seq: 2, at: Millisecond(DEFAULT_EPOCH + 7) };
    assert_eq!(gen.finish(step), Some(Ok((7 << 22) | (4 << 12) | 2)));
}

#[test]
fn finish_with_hands_out_the_id_once_the_clock_is_late_enough() {
    let gen = Generator::new_at(4, Millisecond(DEFAULT_EPOCH), Nanosecond(DEFAULT_EPOCH * 1_000_000)).unwrap();
    let step = SequenceStep::Wait { seq: 3, until: Millisecond(DEFAULT_EPOCH + 10) };
    assert_eq!(gen.finish_with(step, Nanosecond((DEFAULT_EPOCH + 10) * 1_000_000 - 1)), None);
    assert_eq!(
        gen.finish_with(step, Nanosecond((DEFAULT_EPOCH + 10) * 1_000_000)),
        Some(Ok((10 << 22) | (4 << 12) | 3))
    );
    assert_eq!(
        gen.finish_with(step, Nanosecond((DEFAULT_EPOCH + 12) * 1_000_000 + 5)),
        Some(Ok((12 << 22) | (4 << 12) | 3))
    );
    let ready = SequenceStep::Ready { seq: 1, at: Millisecond(DEFAULT_EPOCH + 20) };
    assert_eq!(gen.finish_with(ready, Nanosecond(0)), Some(Ok((20 << 22) | (4 << 12) | 1)));
}
