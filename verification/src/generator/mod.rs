//! The generator: its state, the choice of a sequence number for each call, and the id
//! built from it.

use vstd::prelude::*;
use crate::constants::{MAX_TIMESTAMP_NANOS, RESET_INCREMENT};
use crate::error::{HexaFreezeError, HexaFreezeResult};
use nano::{fits_i64, nanos_per_milli, Millisecond, Nanosecond};
use snowflake::snowflake;

pub mod checks;
pub mod laws;
pub mod nano;
pub mod snowflake;
pub mod trace;
pub mod util;

verus! {

/// Number of sequence slots, for specifications.
pub open spec fn slot_count() -> int {
    4096
}

/// What a generator holds: its epoch (in nanoseconds after the UNIX epoch, a whole number of
/// milliseconds), its node id, how many sequence numbers it has handed out, and, for each
/// sequence slot, the millisecond in which the slot was last used.
pub struct GeneratorModel {
    pub epoch: int,
    pub node_id: i64,
    pub increment: i64,
    pub last_reset: Seq<i64>,
}

impl GeneratorModel {
    /// The states a generator can be in.
    pub open spec fn valid(self) -> bool {
        &&& self.epoch % nanos_per_milli() == 0
        &&& fits_i64(self.epoch / nanos_per_milli())
        &&& 0 <= self.node_id <= 1023
        &&& 0 <= self.increment
        &&& self.last_reset.len() == slot_count()
    }

    /// The sequence number of the next call.
    pub open spec fn next_seq(self) -> i64 {
        (self.increment as int % slot_count()) as i64
    }
}

/// A generator as it comes from construction: nothing handed out, every slot last used at
/// millisecond 0.
pub open spec fn fresh_model(node_id: i64, epoch: int) -> GeneratorModel {
    GeneratorModel {
        epoch,
        node_id,
        increment: 0,
        last_reset: Seq::new(4096, |i: int| 0i64),
    }
}

/// The outcome of building a generator for node `node_id` with the epoch `epoch` (in
/// milliseconds) at the time `now` (in nanoseconds): the node id is checked first, then the
/// epoch.
pub open spec fn construction(node_id: i64, epoch: i64, now: i64) -> HexaFreezeResult<GeneratorModel> {
    let epoch_nanos = epoch * nanos_per_milli();
    if !checks::valid_node_id(node_id as int) {
        Err(HexaFreezeError::NodeIdTooLarge)
    } else {
        match checks::epoch_check(epoch_nanos, now as int) {
            Err(e) => Err(e),
            Ok(_) => Ok(fresh_model(node_id, epoch_nanos)),
        }
    }
}

/// The state of the generator that a construction gave, or its error.
pub open spec fn model_of(r: HexaFreezeResult<Generator>) -> HexaFreezeResult<GeneratorModel> {
    match r {
        Ok(g) => Ok(g@),
        Err(e) => Err(e),
    }
}

/// Where a call to the generator stands once its sequence number is chosen.
#[derive(Debug, Clone, Copy, PartialEq, Eq, Structural)]
pub enum SequenceStep {
    /// The id takes sequence number `seq` and the timestamp `at`.
    Ready { seq: i64, at: Millisecond },
    /// The slot of `seq` was last used in this very millisecond, and the id given then may
    /// carry the next one: the caller waits until the clock reads millisecond `until`, then
    /// the id takes sequence number `seq` and that reading.
    Wait { seq: i64, until: Millisecond },
}

/// Whether choosing a sequence number at millisecond `now` would make a timestamp (`now + 1`
/// for a ready step, `now + 2` for a wait) that does not fit in an `i64`.
pub open spec fn step_overflows(m: GeneratorModel, now: i64) -> bool {
    let last = m.last_reset[m.next_seq() as int];
    &&& m.increment != i64::MAX
    &&& (now > last && now == i64::MAX) || (now == last && now > i64::MAX - 2)
}

/// The state after a call at millisecond `now`, and its outcome. The call takes the next
/// sequence number (the counter modulo 4096), unless the counter is exhausted; it records
/// `now` as the slot's last use; it fails where the clock reads before the slot's last use;
/// where it reads the same millisecond, it has the caller wait until the clock reads two
/// milliseconds later (past the timestamp the slot's previous id may carry); otherwise it
/// stamps the id with the next millisecond.
pub open spec fn sequence_step(m: GeneratorModel, now: i64) -> (
    GeneratorModel,
    HexaFreezeResult<SequenceStep>,
) {
    if m.increment == i64::MAX {
        (m, Err(HexaFreezeError::Surpassed64BitLimit))
    } else {
        let seq = m.next_seq();
        let last = m.last_reset[seq as int];
        let next = GeneratorModel {
            increment: (m.increment + 1) as i64,
            last_reset: m.last_reset.update(seq as int, now),
            ..m
        };
        if now < last {
            (next, Err(HexaFreezeError::ClockWentBackInTime))
        } else if now == last {
            (next, Ok(SequenceStep::Wait { seq, until: Millisecond((now + 2) as i64) }))
        } else {
            (next, Ok(SequenceStep::Ready { seq, at: Millisecond((now + 1) as i64) }))
        }
    }
}

/// The id of a generator in state `m` for the time `time` (in nanoseconds after the UNIX
/// epoch) and sequence number `seq`: the time after the epoch, which may not exceed the
/// largest snowflake timestamp, in whole milliseconds (rounded down), with the node id and
/// `seq`.
pub open spec fn id_at(m: GeneratorModel, time: int, seq: i64) -> HexaFreezeResult<i64> {
    let ts = time - m.epoch;
    if ts > MAX_TIMESTAMP_NANOS {
        Err(HexaFreezeError::EpochTooFarInThePast)
    } else {
        Ok(snowflake((ts / nanos_per_milli()) as i64, m.node_id, seq))
    }
}

/// Whether `fresh` (in nanoseconds) may serve as the clock reading after `step`: after a
/// wait, it must lie at or after the millisecond the step waits for.
pub open spec fn fresh_admitted(step: SequenceStep, fresh: int) -> bool {
    match step {
        SequenceStep::Wait { until, .. } => fresh >= until.0 * nanos_per_milli(),
        SequenceStep::Ready { .. } => true,
    }
}

/// The id that a step gives: a ready step's timestamp, or else the clock reading `fresh`
/// (in nanoseconds) taken after the wait.
pub open spec fn step_id(m: GeneratorModel, step: SequenceStep, fresh: int) -> HexaFreezeResult<i64> {
    match step {
        SequenceStep::Ready { seq, at } => id_at(m, at.0 * nanos_per_milli(), seq),
        SequenceStep::Wait { seq, .. } => id_at(m, fresh, seq),
    }
}

/// A snowflake generator for one node.
pub struct Generator {
    epoch: Millisecond,
    node_id: i64,
    increment: i64,
    last_reset_millis: [i64; 4096],
}

impl View for Generator {
    type V = GeneratorModel;

    closed spec fn view(&self) -> GeneratorModel {
        GeneratorModel {
            epoch: self.epoch.0 * nanos_per_milli(),
            node_id: self.node_id,
            increment: self.increment,
            last_reset: self.last_reset_millis@,
        }
    }
}

impl Generator {
    #[verifier::type_invariant]
    closed spec fn inv(self) -> bool {
        self@.valid()
    }

    /// The epoch, in milliseconds after the UNIX epoch.
    pub fn epoch(&self) -> (r: Millisecond)
        ensures
            r.0 * nanos_per_milli() == self@.epoch,
            self@.valid(),
    {
        proof {
            use_type_invariant(self);
        }
        self.epoch
    }

    /// The node id.
    pub fn node_id(&self) -> (r: i64)
        ensures
            r == self@.node_id,
            self@.valid(),
    {
        proof {
            use_type_invariant(self);
        }
        self.node_id
    }

    /// Chooses the sequence number of a call made at millisecond `now`.
    pub fn get_sequence_at(&mut self, now: Millisecond) -> (r: HexaFreezeResult<SequenceStep>)
        requires
            !step_overflows(old(self)@, now.0),
        ensures
            old(self)@.valid(),
            (final(self)@, r) == sequence_step(old(self)@, now.0),
            final(self)@.valid(),
    {
        proof {
            use_type_invariant(&*self);
        }
        let seq = self.increment % RESET_INCREMENT;
        if self.increment == i64::MAX {
            return Err(HexaFreezeError::Surpassed64BitLimit);
        }
        self.increment = self.increment + 1;
        let idx = seq as usize;
        let last = self.last_reset_millis[idx];
        self.last_reset_millis[idx] = now.0;
        proof {
            use_type_invariant(&*self);
        }
        if now.0 < last {
            return Err(HexaFreezeError::ClockWentBackInTime);
        }
        if last == now.0 {
            return Ok(SequenceStep::Wait { seq, until: now + Millisecond(2) });
        }
        Ok(SequenceStep::Ready { seq, at: now + Millisecond(1) })
    }

    /// Chooses the sequence number of a call made now, at the clock's current millisecond.
    pub fn get_sequence(&mut self) -> (r: HexaFreezeResult<SequenceStep>)
        ensures
            old(self)@.valid(),
            exists|now: i64| (final(self)@, r) == sequence_step(old(self)@, now),
            final(self)@.valid(),
    {
        let now: Millisecond = util::now().into();
        self.get_sequence_at(now)
    }

    /// The id for the time `time` (in nanoseconds) and sequence number `seq`.
    fn id_from_time(&self, time: i128, seq: i64) -> (r: HexaFreezeResult<i64>)
        requires
            -0x1_0000_0000_0000_0000_0000_0000 <= time <= 0x1_0000_0000_0000_0000_0000_0000,
        ensures
            r == id_at(self@, time as int, seq),
    {
        let ts: i128 = time - self.epoch.0 as i128 * 1_000_000;
        if ts > MAX_TIMESTAMP_NANOS as i128 {
            return Err(HexaFreezeError::EpochTooFarInThePast);
        }
        let millis: i128 = match ts.checked_div_euclid(1_000_000) {
            Some(millis) => millis,
            None => 0,
        };
        Ok(snowflake::create_snowflake(millis as i64, self.node_id, seq))
    }

    /// The id for the time `now` and sequence number `seq`. The time after the epoch is
    /// taken exactly, also where it does not fit in an `i64`.
    pub fn create_id(&self, now: Nanosecond, seq: i64) -> (r: HexaFreezeResult<i64>)
        ensures
            self@.valid(),
            r == id_at(self@, now.0 as int, seq),
    {
        proof {
            use_type_invariant(self);
        }
        self.id_from_time(now.0 as i128, seq)
    }

    /// The id that `step` gives, with `fresh` as the clock reading after a wait.
    pub fn finish_at(&self, step: SequenceStep, fresh: Nanosecond) -> (r: HexaFreezeResult<i64>)
        requires
            fresh_admitted(step, fresh.0 as int),
        ensures
            self@.valid(),
            r == step_id(self@, step, fresh.0 as int),
    {
        proof {
            use_type_invariant(self);
        }
        match step {
            SequenceStep::Ready { seq, at } => self.id_from_time(at.0 as i128 * 1_000_000, seq),
            SequenceStep::Wait { seq, .. } => self.create_id(fresh, seq),
        }
    }

    /// The id that `step` gives with `fresh` as the clock reading after a wait, where that
    /// reading has reached the millisecond the step waits for; otherwise no id yet (`None`),
    /// and the caller waits longer.
    pub fn finish_with(&self, step: SequenceStep, fresh: Nanosecond) -> (r: Option<HexaFreezeResult<i64>>)
        ensures
            self@.valid(),
            r is None <==> !fresh_admitted(step, fresh.0 as int),
            r matches Some(id) ==> id == step_id(self@, step, fresh.0 as int),
    {
        proof {
            use_type_invariant(self);
        }
        match step {
            SequenceStep::Ready { .. } => Some(self.finish_at(step, fresh)),
            SequenceStep::Wait { until, .. } => {
                if (fresh.0 as i128) < until.0 as i128 * 1_000_000 {
                    None
                } else {
                    Some(self.finish_at(step, fresh))
                }
            },
        }
    }

    /// The id that `step` gives. After a wait the clock is read again; where it does not yet
    /// read the millisecond the step waits for, there is no id yet (`None`), and the caller
    /// waits longer.
    pub fn finish(&self, step: SequenceStep) -> (r: Option<HexaFreezeResult<i64>>)
        ensures
            self@.valid(),
            step is Ready ==> r == Some(step_id(self@, step, 0)),
            r is None ==> step is Wait,
            exists|fresh: i64|
                {
                    &&& (r is None <==> !fresh_admitted(step, fresh as int))
                    &&& (r matches Some(id) ==> id == step_id(self@, step, fresh as int))
                },
    {
        let fresh = match step {
            SequenceStep::Ready { .. } => Nanosecond(0),
            SequenceStep::Wait { .. } => util::now(),
        };
        self.finish_with(step, fresh)
    }

    /// One whole call: the sequence number is chosen at millisecond `now`, and after a wait
    /// the id takes the reading `fresh`.
    pub fn generate_at(&mut self, now: Millisecond, fresh: Nanosecond) -> (r: HexaFreezeResult<i64>)
        requires
            !step_overflows(old(self)@, now.0),
            sequence_step(old(self)@, now.0).1 matches Ok(step) ==> fresh_admitted(
                step,
                fresh.0 as int,
            ),
        ensures
            old(self)@.valid(),
            (final(self)@, r) == trace::generate_call(old(self)@, (now.0, fresh.0)),
            final(self)@.valid(),
    {
        let step = self.get_sequence_at(now)?;
        self.finish_at(step, fresh)
    }

    /// A generator for node `node_id` whose timestamps count from `epoch`, checked against
    /// the time `now`. The distance between the epoch and `now` is taken exactly, however
    /// far the epoch lies.
    pub fn new_at(node_id: i64, epoch: Millisecond, now: Nanosecond) -> (r: HexaFreezeResult<Generator>)
        ensures
            model_of(r) == construction(node_id, epoch.0, now.0),
            r matches Ok(g) ==> g@.valid(),
    {
        checks::check_node_id(node_id)?;
        checks::check_epoch_nanos_at(epoch.0 as i128 * 1_000_000, now)?;
        let g = Generator { epoch, node_id, increment: 0, last_reset_millis: [0i64; 4096] };
        assert(g@.last_reset =~= fresh_model(node_id, epoch.0 * nanos_per_milli()).last_reset);
        assert(epoch.0 * nanos_per_milli() / nanos_per_milli() == epoch.0);
        Ok(g)
    }

    /// A generator for node `node_id` whose timestamps count from `epoch`, checked against
    /// the current time.
    pub fn new(node_id: i64, epoch: Millisecond) -> (r: HexaFreezeResult<Generator>)
        ensures
            exists|now: i64| model_of(r) == construction(node_id, epoch.0, now),
            r matches Ok(g) ==> g@.valid(),
    {
        Generator::new_at(node_id, epoch, util::now())
    }
}

} // verus!
