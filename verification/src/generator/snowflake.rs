//! The bit layout of a snowflake: timestamp, node id and sequence number in one `i64`.

use vstd::prelude::*;
use crate::constants::{INSTANCE_SHIFT, SEQUENCE_SHIFT, TIMESTAMP_SHIFT};

verus! {

/// The snowflake with timestamp `ts`, node id `node_id` and sequence number `seq`, as the
/// bits of an `i64`: `ts` shifted past the 22 low bits, `node_id` shifted past the 12 low
/// bits, and `seq`, or-ed together.
pub open spec fn snowflake(ts: i64, node_id: i64, seq: i64) -> i64 {
    (ts << 22i64) | (node_id << 12i64) | (seq << 0i64)
}

/// Whether `ts`, `node_id` and `seq` each fit in their field of a snowflake (a timestamp
/// may also lie up to 2^41 milliseconds before the epoch).
pub open spec fn fields_fit(ts: int, node_id: int, seq: int) -> bool {
    &&& -0x200_0000_0000 <= ts < 0x200_0000_0000
    &&& 0 <= node_id < 1024
    &&& 0 <= seq < 4096
}

/// Builds the snowflake of a timestamp, a node id and a sequence number.
pub fn create_snowflake(ts: i64, node_id: i64, seq: i64) -> (r: i64)
    ensures
        r == snowflake(ts, node_id, seq),
        fields_fit(ts as int, node_id as int, seq as int) ==> r == ts * 0x40_0000 + node_id
            * 0x1000 + seq,
{
    proof {
        if fields_fit(ts as int, node_id as int, seq as int) {
            lemma_snowflake_fields(ts, node_id, seq);
        }
    }
    (ts << TIMESTAMP_SHIFT) | (node_id << INSTANCE_SHIFT) | (seq << SEQUENCE_SHIFT)
}

/// Where the fields fit, a snowflake is `ts * 2^22 + node_id * 2^12 + seq`, and each field
/// can be read back from it.
pub proof fn lemma_snowflake_fields(ts: i64, node_id: i64, seq: i64)
    requires
        fields_fit(ts as int, node_id as int, seq as int),
    ensures
        snowflake(ts, node_id, seq) == ts * 0x40_0000 + node_id * 0x1000 + seq,
        snowflake(ts, node_id, seq) >> 22i64 == ts,
        (snowflake(ts, node_id, seq) >> 12i64) & 1023i64 == node_id,
        snowflake(ts, node_id, seq) & 4095i64 == seq,
{
    assert(((ts << 22i64) | (node_id << 12i64) | (seq << 0i64)) == ts * 0x40_0000 + node_id
        * 0x1000 + seq && (((ts << 22i64) | (node_id << 12i64) | (seq << 0i64)) >> 22i64) == ts
        && ((((ts << 22i64) | (node_id << 12i64) | (seq << 0i64)) >> 12i64) & 1023i64)
        == node_id && (((ts << 22i64) | (node_id << 12i64) | (seq << 0i64)) & 4095i64) == seq)
        by (bit_vector)
        requires
            -0x200_0000_0000 <= ts < 0x200_0000_0000,
            0 <= node_id < 1024,
            0 <= seq < 4096,
    ;
}

/// The low 12 bits of a snowflake are its sequence number, whatever its timestamp, for any
/// sequence number from 0 to 4095 and any node id that is not negative.
pub proof fn lemma_snowflake_sequence_field(ts: i64, node_id: i64, seq: i64)
    requires
        0 <= node_id,
        0 <= seq < 4096,
    ensures
        snowflake(ts, node_id, seq) & 4095i64 == seq,
{
    assert((((ts << 22i64) | (node_id << 12i64) | (seq << 0i64)) & 4095i64) == seq) by (bit_vector)
        requires
            0 <= node_id,
            0 <= seq < 4096,
    ;
}

/// Where the fields fit, two snowflakes are equal only if their timestamps, node ids and
/// sequence numbers are.
pub proof fn lemma_snowflake_injective(ts1: i64, node1: i64, seq1: i64, ts2: i64, node2: i64, seq2: i64)
    requires
        fields_fit(ts1 as int, node1 as int, seq1 as int),
        fields_fit(ts2 as int, node2 as int, seq2 as int),
        snowflake(ts1, node1, seq1) == snowflake(ts2, node2, seq2),
    ensures
        ts1 == ts2,
        node1 == node2,
        seq1 == seq2,
{
    lemma_snowflake_fields(ts1, node1, seq1);
    lemma_snowflake_fields(ts2, node2, seq2);
}

/// Where the fields fit, snowflakes order as their timestamps do, then their node ids, then
/// their sequence numbers.
pub proof fn lemma_snowflake_order(ts1: i64, node1: i64, seq1: i64, ts2: i64, node2: i64, seq2: i64)
    requires
        fields_fit(ts1 as int, node1 as int, seq1 as int),
        fields_fit(ts2 as int, node2 as int, seq2 as int),
        ts1 < ts2,
    ensures
        snowflake(ts1, node1, seq1) < snowflake(ts2, node2, seq2),
{
    lemma_snowflake_fields(ts1, node1, seq1);
    lemma_snowflake_fields(ts2, node2, seq2);
}

} // verus!
