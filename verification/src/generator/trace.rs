//! What a generator guarantees over a run of calls: while the clock never goes back, the ids
//! it hands out are pairwise distinct, and their timestamps never go back.

use vstd::prelude::*;
use vstd::arithmetic::div_mod::{lemma_fundamental_div_mod, lemma_fundamental_div_mod_converse};
use crate::error::HexaFreezeResult;
use crate::generator::{
    fresh_admitted, sequence_step, slot_count, step_id, step_overflows, GeneratorModel, SequenceStep,
};
use crate::generator::nano::nanos_per_milli;
use crate::generator::snowflake::{
    fields_fit, lemma_snowflake_fields, lemma_snowflake_injective, lemma_snowflake_sequence_field,
    snowflake,
};

verus! {

/// One whole call of the generator: the sequence number is chosen with the clock reading
/// `call.0` (in milliseconds), and after a wait the id takes the reading `call.1` (in
/// nanoseconds).
pub open spec fn generate_call(m: GeneratorModel, call: (i64, i64)) -> (
    GeneratorModel,
    HexaFreezeResult<i64>,
) {
    let (next, outcome) = sequence_step(m, call.0);
    match outcome {
        Ok(step) => (next, step_id(next, step, call.1 as int)),
        Err(e) => (next, Err(e)),
    }
}

/// The state after the calls `calls`, made one after the other from state `m`, and the
/// outcome of each.
pub open spec fn run(m: GeneratorModel, calls: Seq<(i64, i64)>) -> (
    GeneratorModel,
    Seq<HexaFreezeResult<i64>>,
)
    decreases calls.len(),
{
    if calls.len() == 0 {
        (m, Seq::empty())
    } else {
        let (before, outcomes) = run(m, calls.drop_last());
        let (after, outcome) = generate_call(before, calls.last());
        (after, outcomes.push(outcome))
    }
}

/// The state in which call `i` of `calls` starts.
pub open spec fn state_before(m: GeneratorModel, calls: Seq<(i64, i64)>, i: int) -> GeneratorModel {
    run(m, calls.take(i)).0
}

/// Whether call `i` of `calls` waits.
pub open spec fn waits(m: GeneratorModel, calls: Seq<(i64, i64)>, i: int) -> bool {
    sequence_step(state_before(m, calls, i), calls[i].0).1 matches Ok(SequenceStep::Wait { .. })
}

/// The last clock reading that call `i` of `calls` takes, in milliseconds.
pub open spec fn clock_after(m: GeneratorModel, calls: Seq<(i64, i64)>, i: int) -> int {
    if waits(m, calls, i) {
        calls[i].1 as int / nanos_per_milli()
    } else {
        calls[i].0 as int
    }
}

/// The calls are ones the library admits: no call's timestamp overflows, and each reading
/// after a wait lies at or after the millisecond the call was told to wait for.
pub open spec fn calls_admitted(m: GeneratorModel, calls: Seq<(i64, i64)>) -> bool {
    &&& forall|i: int|
        0 <= i < calls.len() ==> !step_overflows(#[trigger] state_before(m, calls, i), calls[i].0)
    &&& forall|i: int|
        0 <= i < calls.len() ==> (sequence_step(#[trigger] state_before(m, calls, i), calls[i].0).1 matches Ok(step)
            ==> fresh_admitted(step, calls[i].1 as int))
}

/// The clock never goes back over `calls`: each call's first reading lies no earlier than
/// the last reading of the call before it; and the first reading lies less than 2^41
/// milliseconds before the epoch (so that every timestamp fits its field).
pub open spec fn clock_never_goes_back(m: GeneratorModel, calls: Seq<(i64, i64)>) -> bool {
    &&& calls.len() > 0 ==> calls[0].0 + 1 - m.epoch / nanos_per_milli() >= -0x200_0000_0000
    &&& forall|i: int|
        #![trigger calls[i]]
        0 < i < calls.len() ==> calls[i].0 >= clock_after(m, calls, i - 1)
}

/// The timestamp (in milliseconds after the UNIX epoch) that call `i` gives its id.
pub open spec fn issued_time(m: GeneratorModel, calls: Seq<(i64, i64)>, i: int) -> int {
    match sequence_step(state_before(m, calls, i), calls[i].0).1 {
        Ok(SequenceStep::Ready { at, .. }) => at.0 as int,
        _ => calls[i].1 as int / nanos_per_milli(),
    }
}

/// The sequence number that call `i` takes.
pub open spec fn issued_seq(m: GeneratorModel, calls: Seq<(i64, i64)>, i: int) -> i64 {
    state_before(m, calls, i).next_seq()
}

/// The clock after the first `k` calls, in milliseconds.
pub open spec fn clock_at(m: GeneratorModel, calls: Seq<(i64, i64)>, k: int) -> int {
    if k == 0 {
        calls[0].0 as int
    } else {
        clock_after(m, calls, k - 1)
    }
}

/// What holds of the id `outcome` of call `i`, while the state is `mk` and the clock `c`.
pub open spec fn issued_fits(
    m: GeneratorModel,
    calls: Seq<(i64, i64)>,
    i: int,
    mk: GeneratorModel,
    c: int,
    outcome: HexaFreezeResult<i64>,
) -> bool {
    let t = issued_time(m, calls, i);
    let s = issued_seq(m, calls, i);
    let epoch_millis = m.epoch / nanos_per_milli();
    &&& outcome == Ok::<i64, crate::error::HexaFreezeError>(
        snowflake((t - epoch_millis) as i64, m.node_id, s),
    )
    &&& fields_fit(t - epoch_millis, m.node_id as int, s as int)
    &&& t <= c + 1
    &&& mk.last_reset[s as int] <= c
    &&& (t <= c || t <= mk.last_reset[s as int] + 1)
}

/// What holds after the first `k` calls.
pub open spec fn prefix_inv(m: GeneratorModel, calls: Seq<(i64, i64)>, k: int) -> bool {
    let (mk, outcomes) = run(m, calls.take(k));
    let c = clock_at(m, calls, k);
    &&& outcomes.len() == k
    &&& mk.valid()
    &&& mk.epoch == m.epoch
    &&& mk.node_id == m.node_id
    &&& c >= calls[0].0
    &&& forall|i: int|
        0 <= i < k && (#[trigger] outcomes[i]) is Ok ==> issued_fits(m, calls, i, mk, c, outcomes[i])
    &&& forall|i: int, j: int|
        0 <= i < j < k && (#[trigger] outcomes[i]) is Ok && (#[trigger] outcomes[j]) is Ok ==> {
            &&& issued_time(m, calls, i) <= issued_time(m, calls, j)
            &&& issued_seq(m, calls, i) == issued_seq(m, calls, j) ==> issued_time(m, calls, i)
                < issued_time(m, calls, j)
        }
}

/// The floor of a difference with a whole number of milliseconds.
proof fn lemma_millis_of_difference(time: int, epoch: int)
    requires
        epoch % nanos_per_milli() == 0,
    ensures
        (time - epoch) / nanos_per_milli() == time / nanos_per_milli() - epoch / nanos_per_milli(),
{
    lemma_fundamental_div_mod(time, nanos_per_milli());
    lemma_fundamental_div_mod(epoch, nanos_per_milli());
    lemma_fundamental_div_mod_converse(
        time - epoch,
        nanos_per_milli(),
        time / nanos_per_milli() - epoch / nanos_per_milli(),
        time % nanos_per_milli(),
    );
}

/// The state and outcomes after `k + 1` calls extend those after `k`.
proof fn lemma_run_extends(m: GeneratorModel, calls: Seq<(i64, i64)>, k: int)
    requires
        0 <= k < calls.len(),
    ensures
        run(m, calls.take(k + 1)) == ({
            let (before, outcomes) = run(m, calls.take(k));
            let (after, outcome) = generate_call(before, calls[k]);
            (after, outcomes.push(outcome))
        }),
{
    assert(calls.take(k + 1).drop_last() =~= calls.take(k));
    assert(calls.take(k + 1).last() == calls[k]);
}

/// The facts of earlier ids survive a state whose slots were used no earlier and a clock
/// that reads no earlier.
proof fn lemma_earlier_ids_kept(
    m: GeneratorModel,
    calls: Seq<(i64, i64)>,
    k: int,
    mk1: GeneratorModel,
    c1: int,
)
    requires
        prefix_inv(m, calls, k),
        c1 >= clock_at(m, calls, k),
        mk1.last_reset.len() == slot_count(),
        forall|x: int|
            0 <= x < slot_count() && run(m, calls.take(k)).0.last_reset[x] <= clock_at(m, calls, k)
                ==> run(m, calls.take(k)).0.last_reset[x] <= #[trigger] mk1.last_reset[x] <= c1,
    ensures
        forall|i: int|
            0 <= i < k && (#[trigger] run(m, calls.take(k)).1[i]) is Ok ==> issued_fits(
                m,
                calls,
                i,
                mk1,
                c1,
                run(m, calls.take(k)).1[i],
            ),
{
    let (mk, outcomes) = run(m, calls.take(k));
    let c = clock_at(m, calls, k);
    assert forall|i: int| 0 <= i < k && (#[trigger] outcomes[i]) is Ok implies issued_fits(
        m,
        calls,
        i,
        mk1,
        c1,
        outcomes[i],
    ) by {
        assert(issued_fits(m, calls, i, mk, c, outcomes[i]));
        let si = issued_seq(m, calls, i);
        assert(mk.last_reset[si as int] <= mk1.last_reset[si as int]);
    }
}

/// The facts of the id that call `k` gives, when it gives one.
proof fn lemma_new_id_fits(m: GeneratorModel, calls: Seq<(i64, i64)>, k: int)
    requires
        m.valid(),
        calls_admitted(m, calls),
        clock_never_goes_back(m, calls),
        0 <= k < calls.len(),
        prefix_inv(m, calls, k),
        generate_call(run(m, calls.take(k)).0, calls[k]).1 is Ok,
    ensures
        issued_fits(
            m,
            calls,
            k,
            generate_call(run(m, calls.take(k)).0, calls[k]).0,
            clock_after(m, calls, k),
            generate_call(run(m, calls.take(k)).0, calls[k]).1,
        ),
        issued_time(m, calls, k) >= calls[k].0 + 1,
        issued_time(m, calls, k) >= clock_at(m, calls, k) + 1,
        waits(m, calls, k) ==> issued_time(m, calls, k) >= calls[k].0 + 2,
        !waits(m, calls, k) ==> issued_time(m, calls, k) == calls[k].0 + 1,
        calls[k].0 >= run(m, calls.take(k)).0.last_reset[issued_seq(m, calls, k) as int],
{
    let mk = run(m, calls.take(k)).0;
    let c = clock_at(m, calls, k);
    let r = calls[k].0;
    let f = calls[k].1;
    let epoch_millis = m.epoch / nanos_per_milli();
    let (after, outcome) = generate_call(mk, calls[k]);
    assert(state_before(m, calls, k) == mk);
    assert(r >= c) by {
        if k > 0 {
            assert(calls[k].0 >= clock_after(m, calls, k - 1));
        }
    }
    assert(!step_overflows(mk, r));
    let t = issued_time(m, calls, k);
    let s = issued_seq(m, calls, k);
    assert(mk.increment != i64::MAX);
    let last = mk.last_reset[s as int];
    assert(r >= last);
    assert(epoch_millis * nanos_per_milli() == m.epoch) by {
        lemma_fundamental_div_mod(m.epoch, nanos_per_milli());
    }
    if r == last {
        assert(waits(m, calls, k));
        assert(f as int >= (r + 2) * nanos_per_milli());
        lemma_fundamental_div_mod(f as int, nanos_per_milli());
        assert(f as int / nanos_per_milli() >= r + 2);
        assert(t == f as int / nanos_per_milli());
        assert(clock_after(m, calls, k) == t);
        lemma_millis_of_difference(f as int, m.epoch);
    } else {
        assert(!waits(m, calls, k));
        assert(t == r + 1);
        assert(clock_after(m, calls, k) == r);
        assert(t * nanos_per_milli() / nanos_per_milli() == t);
        lemma_millis_of_difference(t * nanos_per_milli(), m.epoch);
    }
    assert(t - epoch_millis <= 0x1ff_ffff_ffff);
    assert(t - epoch_millis >= -0x200_0000_0000);
}

/// One more call keeps `prefix_inv`.
proof fn lemma_prefix_step(m: GeneratorModel, calls: Seq<(i64, i64)>, k: int)
    requires
        m.valid(),
        calls_admitted(m, calls),
        clock_never_goes_back(m, calls),
        0 <= k < calls.len(),
        prefix_inv(m, calls, k),
    ensures
        prefix_inv(m, calls, k + 1),
{
    let (mk, outcomes) = run(m, calls.take(k));
    let c = clock_at(m, calls, k);
    let r = calls[k].0;
    lemma_run_extends(m, calls, k);
    let (after, outcome) = generate_call(mk, calls[k]);
    let (mk1, outcomes1) = run(m, calls.take(k + 1));
    assert(mk1 == after);
    assert(outcomes1 == outcomes.push(outcome));
    assert(state_before(m, calls, k) == mk);
    assert(r >= c) by {
        if k > 0 {
            assert(calls[k].0 >= clock_after(m, calls, k - 1));
        }
    }
    let c1 = clock_at(m, calls, k + 1);
    assert(c1 == clock_after(m, calls, k));
    assert(!step_overflows(mk, r));
    assert(c1 >= r) by {
        if waits(m, calls, k) {
            let f = calls[k].1 as int;
            assert(f >= (r + 2) * nanos_per_milli());
            lemma_fundamental_div_mod(f, nanos_per_milli());
        }
    }
    let s = issued_seq(m, calls, k);
    assert(s == mk.next_seq());
    assert forall|x: int|
        0 <= x < slot_count() && mk.last_reset[x] <= c implies mk.last_reset[x]
        <= #[trigger] mk1.last_reset[x] <= c1 by {
        if mk.increment != i64::MAX && x == s {
            assert(mk1.last_reset[x] == r);
        }
    }
    lemma_earlier_ids_kept(m, calls, k, mk1, c1);
    if outcome is Ok {
        lemma_new_id_fits(m, calls, k);
    }
    assert forall|i: int|
        0 <= i < k + 1 && (#[trigger] outcomes1[i]) is Ok implies issued_fits(
        m,
        calls,
        i,
        mk1,
        c1,
        outcomes1[i],
    ) by {
        if i < k {
            assert(outcomes1[i] == outcomes[i]);
        } else {
            assert(outcomes1[i] == outcome);
        }
    }
    assert forall|i: int, j: int|
        0 <= i < j < k + 1 && (#[trigger] outcomes1[i]) is Ok && (#[trigger] outcomes1[j]) is Ok implies {
        &&& issued_time(m, calls, i) <= issued_time(m, calls, j)
        &&& issued_seq(m, calls, i) == issued_seq(m, calls, j) ==> issued_time(m, calls, i)
            < issued_time(m, calls, j)
    } by {
        assert(outcomes1[i] == outcomes[i]);
        if j < k {
            assert(outcomes1[j] == outcomes[j]);
        } else {
            assert(outcomes1[j] == outcome);
            assert(issued_fits(m, calls, i, mk, c, outcomes[i]));
        }
    }
}

/// `prefix_inv` holds of every prefix of the calls.
proof fn lemma_prefix_inv(m: GeneratorModel, calls: Seq<(i64, i64)>, k: int)
    requires
        m.valid(),
        calls_admitted(m, calls),
        clock_never_goes_back(m, calls),
        calls.len() > 0,
        0 <= k <= calls.len(),
    ensures
        prefix_inv(m, calls, k),
    decreases k,
{
    if k == 0 {
        assert(calls.take(0) =~= Seq::<(i64, i64)>::empty());
        let (m0, outcomes0) = run(m, calls.take(0));
        assert(m0 == m);
    } else {
        lemma_prefix_inv(m, calls, k - 1);
        lemma_prefix_step(m, calls, k - 1);
    }
}

/// Ids are unique and their timestamps never go back: over calls made one after the other
/// on one generator, as the library admits them (a call told to wait reads the clock again
/// only once it has reached the millisecond it waits for), while the clock never goes back,
/// any two calls that both give an id give different ids, and the later id's timestamp (its
/// bits above the low 22) is no smaller than the earlier one's.
pub proof fn lemma_ids_unique_and_time_ordered(m: GeneratorModel, calls: Seq<(i64, i64)>)
    requires
        m.valid(),
        calls_admitted(m, calls),
        clock_never_goes_back(m, calls),
    ensures
        ({
            let outcomes = run(m, calls).1;
            &&& outcomes.len() == calls.len()
            &&& forall|i: int, j: int|
                0 <= i < j < outcomes.len() && (#[trigger] outcomes[i]) is Ok
                    && (#[trigger] outcomes[j]) is Ok ==> outcomes[i]->Ok_0 != outcomes[j]->Ok_0
                    && (outcomes[i]->Ok_0 >> 22i64) <= (outcomes[j]->Ok_0 >> 22i64)
        }),
{
    if calls.len() == 0 {
        return;
    }
    let n = calls.len() as int;
    lemma_prefix_inv(m, calls, n);
    assert(calls.take(n) =~= calls);
    let (mn, outcomes) = run(m, calls);
    let c = clock_at(m, calls, n);
    assert forall|i: int, j: int|
        0 <= i < j < outcomes.len() && (#[trigger] outcomes[i]) is Ok
            && (#[trigger] outcomes[j]) is Ok implies outcomes[i]->Ok_0 != outcomes[j]->Ok_0
            && (outcomes[i]->Ok_0 >> 22i64) <= (outcomes[j]->Ok_0 >> 22i64) by {
        let a = outcomes[i]->Ok_0;
        let b = outcomes[j]->Ok_0;
        assert(issued_fits(m, calls, i, mn, c, outcomes[i]));
        assert(issued_fits(m, calls, j, mn, c, outcomes[j]));
        let epoch_millis = m.epoch / nanos_per_milli();
        let ti = issued_time(m, calls, i);
        let tj = issued_time(m, calls, j);
        let si = issued_seq(m, calls, i);
        let sj = issued_seq(m, calls, j);
        lemma_snowflake_fields((ti - epoch_millis) as i64, m.node_id, si);
        lemma_snowflake_fields((tj - epoch_millis) as i64, m.node_id, sj);
        if a == b {
            lemma_snowflake_injective(
                (ti - epoch_millis) as i64,
                m.node_id,
                si,
                (tj - epoch_millis) as i64,
                m.node_id,
                sj,
            );
        }
    }
}


/// The counter after the first `k` calls has grown by `k`, while it stays below `i64::MAX`.
proof fn lemma_counter_after(m: GeneratorModel, calls: Seq<(i64, i64)>, k: int)
    requires
        m.valid(),
        0 <= k <= calls.len(),
        m.increment + k <= i64::MAX,
    ensures
        run(m, calls.take(k)).0.increment == m.increment + k,
        run(m, calls.take(k)).0.valid(),
    decreases k,
{
    if k == 0 {
        assert(calls.take(0) =~= Seq::<(i64, i64)>::empty());
    } else {
        lemma_counter_after(m, calls, k - 1);
        lemma_run_extends(m, calls, k - 1);
    }
}

/// Sequence numbers are not reset with the clock: call `i` takes the counter value
/// `counter + i` (so no two calls take the same value) and the sequence number
/// `(counter + i) mod 4096`, whatever the clock reads, while the counter stays below
/// `i64::MAX`.
pub proof fn lemma_sequence_follows_counter(m: GeneratorModel, calls: Seq<(i64, i64)>)
    requires
        m.valid(),
        m.increment + calls.len() <= i64::MAX,
    ensures
        forall|i: int|
            0 <= i < calls.len() ==> #[trigger] state_before(m, calls, i).increment == m.increment
                + i,
        forall|i: int|
            0 <= i < calls.len() ==> #[trigger] issued_seq(m, calls, i) == (m.increment + i)
                % 4096,
{
    assert forall|i: int| 0 <= i < calls.len() implies #[trigger] state_before(m, calls, i).increment
        == m.increment + i && issued_seq(m, calls, i) == (m.increment + i) % 4096 by {
        lemma_counter_after(m, calls, i);
    }
}

/// The outcome of call `i` in a run is that call's outcome from the state it starts in.
proof fn lemma_run_outcome(m: GeneratorModel, calls: Seq<(i64, i64)>, i: int)
    requires
        0 <= i < calls.len(),
    ensures
        run(m, calls).1.len() == calls.len(),
        run(m, calls).1[i] == generate_call(state_before(m, calls, i), calls[i]).1,
    decreases calls.len(),
{
    let n = calls.len() as int;
    assert(calls.take(n - 1) =~= calls.drop_last());
    if i == n - 1 {
        lemma_run_length(m, calls.drop_last());
    } else {
        lemma_run_outcome(m, calls.drop_last(), i);
        assert(calls.drop_last().take(i) =~= calls.take(i));
    }
}

/// A run has one outcome per call.
proof fn lemma_run_length(m: GeneratorModel, calls: Seq<(i64, i64)>)
    ensures
        run(m, calls).1.len() == calls.len(),
    decreases calls.len(),
{
    if calls.len() > 0 {
        lemma_run_length(m, calls.drop_last());
    }
}

/// The sequence field of an id counts the calls: where call `i` of a run gives an id, its
/// low 12 bits are `(counter + i) mod 4096`, whatever the clock reads, while the counter
/// stays below `i64::MAX`.
pub proof fn lemma_id_sequence_field(m: GeneratorModel, calls: Seq<(i64, i64)>)
    requires
        m.valid(),
        m.increment + calls.len() <= i64::MAX,
    ensures
        run(m, calls).1.len() == calls.len(),
        forall|i: int|
            0 <= i < calls.len() && (#[trigger] run(m, calls).1[i]) is Ok ==> run(m, calls).1[i]->Ok_0
                & 4095i64 == (m.increment + i) % 4096,
{
    lemma_run_length(m, calls);
    lemma_sequence_follows_counter(m, calls);
    assert forall|i: int|
        0 <= i < calls.len() && (#[trigger] run(m, calls).1[i]) is Ok implies run(m, calls).1[i]->Ok_0
        & 4095i64 == (m.increment + i) % 4096 by {
        lemma_run_outcome(m, calls, i);
        let mi = state_before(m, calls, i);
        let seq = mi.next_seq();
        assert(issued_seq(m, calls, i) == seq);
        let (next, outcome) = sequence_step(mi, calls[i].0);
        let id = run(m, calls).1[i]->Ok_0;
        let ts = choose|ts: i64| id == snowflake(ts, mi.node_id, seq);
        assert(exists|ts: i64| id == snowflake(ts, mi.node_id, seq)) by {
            lemma_counter_after(m, calls, i);
            match outcome {
                Ok(SequenceStep::Ready { at, .. }) => {
                    let t = at.0 * nanos_per_milli() - mi.epoch;
                    assert(id == snowflake((t / nanos_per_milli()) as i64, mi.node_id, seq));
                },
                Ok(SequenceStep::Wait { .. }) => {
                    let t = calls[i].1 - mi.epoch;
                    assert(id == snowflake((t / nanos_per_milli()) as i64, mi.node_id, seq));
                },
                Err(_) => {},
            }
        }
        lemma_counter_after(m, calls, i);
        lemma_snowflake_sequence_field(ts, mi.node_id, seq);
    }
}

/// The timestamp of one call's id lies after the reading the call starts with: a call that
/// does not wait is stamped one millisecond after that reading; a call that waits is stamped
/// with its later reading, which lies at least two milliseconds after it (so after the
/// timestamp of any id its slot gave before).
pub proof fn lemma_call_stamp(m: GeneratorModel, call: (i64, i64))
    requires
        m.valid(),
        calls_admitted(m, seq![call]),
        clock_never_goes_back(m, seq![call]),
        generate_call(m, call).1 is Ok,
    ensures
        ({
            let id = generate_call(m, call).1->Ok_0;
            let epoch_millis = m.epoch / nanos_per_milli();
            &&& sequence_step(m, call.0).1 matches Ok(SequenceStep::Ready { .. }) ==> (id >> 22i64)
                == call.0 + 1 - epoch_millis
            &&& sequence_step(m, call.0).1 matches Ok(SequenceStep::Wait { .. }) ==> (id >> 22i64)
                == call.1 as int / nanos_per_milli() - epoch_millis && call.1 as int / nanos_per_milli()
                >= call.0 + 2
        }),
{
    let calls = seq![call];
    assert(calls.take(0) =~= Seq::<(i64, i64)>::empty());
    assert(calls.take(1) =~= calls);
    assert(calls.drop_last() =~= Seq::<(i64, i64)>::empty());
    assert(state_before(m, calls, 0) == m);
    assert(calls[0] == call);
    lemma_prefix_inv(m, calls, 0);
    lemma_new_id_fits(m, calls, 0);
    let t = issued_time(m, calls, 0);
    let epoch_millis = m.epoch / nanos_per_milli();
    lemma_snowflake_fields((t - epoch_millis) as i64, m.node_id, issued_seq(m, calls, 0));
}

} // verus!
