//! Laws that tie the generator's operations together.

use vstd::prelude::*;
use vstd::arithmetic::div_mod::{lemma_fundamental_div_mod, lemma_fundamental_div_mod_converse};
use crate::error::HexaFreezeError;
use crate::generator::{
    construction, fresh_admitted, id_at, sequence_step, step_id, GeneratorModel, SequenceStep,
};
use crate::generator::checks::{epoch_check, valid_node_id};
use crate::generator::nano::{fits_i64, nanos_per_milli};
use crate::generator::snowflake::{lemma_snowflake_fields, lemma_snowflake_injective, snowflake};
use crate::generator::trace::generate_call;

verus! {

/// Milliseconds survive the way to nanoseconds and back: `m` milliseconds are
/// `m * 1_000_000` nanoseconds, whose whole milliseconds are `m` again.
pub proof fn lemma_millis_round_trip(millis: i64)
    requires
        fits_i64(millis * nanos_per_milli()),
    ensures
        (millis * nanos_per_milli()) / nanos_per_milli() == millis,
{
    lemma_fundamental_div_mod_converse(millis * nanos_per_milli(), nanos_per_milli(), millis as int, 0);
}

/// The whole milliseconds of a nanosecond count round it down: they lie at most one
/// millisecond below it.
pub proof fn lemma_millis_round_down(nanos: i64)
    ensures
        (nanos as int / nanos_per_milli()) * nanos_per_milli() <= nanos,
        nanos < (nanos as int / nanos_per_milli() + 1) * nanos_per_milli(),
{
    lemma_fundamental_div_mod(nanos as int, nanos_per_milli());
}

/// A call fails only for the three reasons its documentation gives: the counter is
/// exhausted; the clock reads before the slot's last use; or the id's time lies further
/// after the epoch than a snowflake timestamp holds.
pub proof fn lemma_call_errors(m: GeneratorModel, call: (i64, i64))
    requires
        m.valid(),
    ensures
        generate_call(m, call).1 == Err::<i64, HexaFreezeError>(HexaFreezeError::Surpassed64BitLimit)
            <==> m.increment == i64::MAX,
        generate_call(m, call).1 == Err::<i64, HexaFreezeError>(HexaFreezeError::ClockWentBackInTime)
            <==> m.increment != i64::MAX && call.0 < m.last_reset[m.next_seq() as int],
        generate_call(m, call).1 matches Err(e) ==> e == HexaFreezeError::Surpassed64BitLimit || e
            == HexaFreezeError::ClockWentBackInTime || e == HexaFreezeError::EpochTooFarInThePast,
{
}

/// An epoch that passes its check at time `now` lets the generator stamp an id at `now`:
/// the check and the id agree on how far back the epoch may lie.
pub proof fn lemma_checked_epoch_stamps(m: GeneratorModel, now: i64, seq: i64)
    requires
        m.valid(),
        epoch_check(m.epoch as int, now as int) is Ok,
    ensures
        id_at(m, now as int, seq) is Ok,
{
}

/// An id stamped at least one millisecond after the epoch is positive (in particular, it is
/// not 0).
pub proof fn lemma_ids_after_epoch_positive(m: GeneratorModel, time: int, seq: i64)
    requires
        m.valid(),
        0 <= seq < 4096,
        time - m.epoch >= nanos_per_milli(),
        id_at(m, time, seq) is Ok,
    ensures
        id_at(m, time, seq)->Ok_0 > 0,
{
    let ts = (time - m.epoch) / nanos_per_milli();
    lemma_fundamental_div_mod(time - m.epoch, nanos_per_milli());
    assert(1 <= ts <= 0x1ff_ffff_ffff);
    lemma_snowflake_fields(ts as i64, m.node_id, seq);
}

/// Generators for different nodes never hand out the same id, whatever the times and
/// sequence numbers, while the ids' times lie less than 2^41 milliseconds before the
/// generators' epochs.
pub proof fn lemma_distinct_nodes(
    m1: GeneratorModel,
    time1: int,
    seq1: i64,
    m2: GeneratorModel,
    time2: int,
    seq2: i64,
)
    requires
        m1.valid(),
        m2.valid(),
        m1.node_id != m2.node_id,
        0 <= seq1 < 4096,
        0 <= seq2 < 4096,
        time1 - m1.epoch >= -0x200_0000_0000 * nanos_per_milli(),
        time2 - m2.epoch >= -0x200_0000_0000 * nanos_per_milli(),
        id_at(m1, time1, seq1) is Ok,
        id_at(m2, time2, seq2) is Ok,
    ensures
        id_at(m1, time1, seq1) != id_at(m2, time2, seq2),
{
    let ts1 = (time1 - m1.epoch) / nanos_per_milli();
    let ts2 = (time2 - m2.epoch) / nanos_per_milli();
    lemma_fundamental_div_mod(time1 - m1.epoch, nanos_per_milli());
    lemma_fundamental_div_mod(time2 - m2.epoch, nanos_per_milli());
    assert(ts1 <= 0x1ff_ffff_ffff && ts1 >= -0x200_0000_0000);
    assert(ts2 <= 0x1ff_ffff_ffff && ts2 >= -0x200_0000_0000);
    if id_at(m1, time1, seq1) == id_at(m2, time2, seq2) {
        assert(snowflake(ts1 as i64, m1.node_id, seq1) == snowflake(ts2 as i64, m2.node_id, seq2));
        lemma_snowflake_injective(ts1 as i64, m1.node_id, seq1, ts2 as i64, m2.node_id, seq2);
    }
}

/// The valid node ids are exactly 0 to 1023.
pub proof fn lemma_node_ids_0_to_1023(id: int)
    ensures
        valid_node_id(id) <==> 0 <= id <= 1023,
{
}

/// The epoch check against a time `now` (both in nanoseconds) accepts exactly the epochs
/// from `now` back to `(2^41 - 1)` milliseconds before it; a later epoch lies in the future,
/// an earlier one too far in the past.
pub proof fn lemma_epoch_check_window(epoch: int, now: int)
    ensures
        now - 2_199_023_255_551_000_000 <= epoch <= now ==> epoch_check(epoch, now) == Ok::<
            (),
            HexaFreezeError,
        >(()),
        epoch > now ==> epoch_check(epoch, now) == Err::<(), HexaFreezeError>(
            HexaFreezeError::EpochInTheFuture,
        ),
        epoch < now - 2_199_023_255_551_000_000 ==> epoch_check(epoch, now) == Err::<
            (),
            HexaFreezeError,
        >(HexaFreezeError::EpochTooFarInThePast),
{
}

/// Building a generator at the time `now` (in nanoseconds): a node id from 0 to 1023 with an
/// epoch (in milliseconds) from `now` back to `(2^41 - 1)` milliseconds before it gives a
/// generator with that node id and epoch, nothing handed out, every slot last used at
/// millisecond 0; any other node id gives `NodeIdTooLarge`, whatever the epoch.
pub proof fn lemma_construction_accepts(node_id: i64, epoch: i64, now: i64)
    ensures
        (0 <= node_id <= 1023 && now - 2_199_023_255_551_000_000 <= epoch * 1_000_000 <= now)
            ==> (construction(node_id, epoch, now) matches Ok(m) && m.valid() && m.node_id
            == node_id && m.epoch == epoch * 1_000_000 && m.increment == 0 && m.last_reset.len()
            == 4096 && forall|s: int| 0 <= s < 4096 ==> #[trigger] m.last_reset[s] == 0),
        !(0 <= node_id <= 1023) ==> construction(node_id, epoch, now) == Err::<
            GeneratorModel,
            HexaFreezeError,
        >(HexaFreezeError::NodeIdTooLarge),
{
    if 0 <= node_id <= 1023 && now - 2_199_023_255_551_000_000 <= epoch * 1_000_000 <= now {
        let m = construction(node_id, epoch, now)->Ok_0;
        assert(epoch * 1_000_000 % nanos_per_milli() == 0) by {
            lemma_fundamental_div_mod_converse(epoch * 1_000_000, nanos_per_milli(), epoch as int, 0);
        }
        lemma_fundamental_div_mod_converse(epoch * 1_000_000, nanos_per_milli(), epoch as int, 0);
    }
}

/// A call at millisecond `now` takes the counter's value modulo 4096 as its sequence number
/// and counts it; it records `now` as that slot's last use and leaves every other slot
/// alone; it fails with `ClockWentBackInTime` where `now` lies before the slot's last use,
/// waits until `now + 2` where `now` is that very millisecond, and is otherwise ready, stamped
/// `now + 1`. An exhausted counter fails with `Surpassed64BitLimit` and changes nothing.
pub proof fn lemma_sequence_step_rules(m: GeneratorModel, now: i64)
    requires
        m.valid(),
        !crate::generator::step_overflows(m, now),
    ensures
        ({
            let (next, r) = sequence_step(m, now);
            let seq: int = m.increment as int % 4096;
            let last = m.last_reset[seq];
            &&& m.increment == i64::MAX ==> next == m && r == Err::<SequenceStep, HexaFreezeError>(
                HexaFreezeError::Surpassed64BitLimit,
            )
            &&& m.increment < i64::MAX ==> {
                &&& next.increment == m.increment + 1
                &&& next.epoch == m.epoch
                &&& next.node_id == m.node_id
                &&& next.last_reset.len() == 4096
                &&& next.last_reset[seq] == now
                &&& forall|s: int| 0 <= s < 4096 && s != seq ==> #[trigger] next.last_reset[s]
                    == m.last_reset[s]
                &&& now < last ==> r == Err::<SequenceStep, HexaFreezeError>(
                    HexaFreezeError::ClockWentBackInTime,
                )
                &&& now == last ==> (r matches Ok(SequenceStep::Wait { seq: s, until }) && s == seq
                    && until.0 == now + 2)
                &&& now > last ==> (r matches Ok(SequenceStep::Ready { seq: s, at }) && s == seq
                    && at.0 == now + 1)
            }
        }),
{
}

/// The id of a step: a ready step is stamped with its own millisecond, and a step that
/// waited is handed an id only for a reading at or after the millisecond it waits for, and
/// is then stamped with that reading; either way the id is refused past the largest
/// timestamp, and otherwise carries the whole milliseconds since the epoch, the node id and
/// the sequence number.
pub proof fn lemma_step_id_rules(m: GeneratorModel, step: SequenceStep, fresh: int)
    requires
        m.valid(),
    ensures
        step matches SequenceStep::Wait { until, .. } ==> (fresh_admitted(step, fresh) <==> fresh
            >= until.0 * 1_000_000),
        step is Ready ==> fresh_admitted(step, fresh),
        ({
            let (seq, time) = match step {
                SequenceStep::Ready { seq, at } => (seq, at.0 * 1_000_000),
                SequenceStep::Wait { seq, .. } => (seq, fresh),
            };
            let ts = time - m.epoch;
            &&& ts > 2_199_023_255_551_000_000 ==> step_id(m, step, fresh) == Err::<
                i64,
                HexaFreezeError,
            >(HexaFreezeError::EpochTooFarInThePast)
            &&& (0 <= seq < 4096 && -0x200_0000_0000 * 1_000_000 <= ts <= 2_199_023_255_551_000_000)
                ==> (step_id(m, step, fresh) matches Ok(id) && id == (ts / 1_000_000) * 0x40_0000
                + m.node_id * 0x1000 + seq && (id >> 22i64) == ts / 1_000_000 && (id >> 12i64)
                & 1023i64 == m.node_id && id & 4095i64 == seq)
        }),
{
    let (seq, time) = match step {
        SequenceStep::Ready { seq, at } => (seq, at.0 * 1_000_000),
        SequenceStep::Wait { seq, .. } => (seq, fresh),
    };
    let ts = time - m.epoch;
    if 0 <= seq < 4096 && -0x200_0000_0000 * 1_000_000 <= ts <= 2_199_023_255_551_000_000 {
        lemma_fundamental_div_mod(ts, nanos_per_milli());
        lemma_snowflake_fields((ts / 1_000_000) as i64, m.node_id, seq);
    }
}

} // verus!
