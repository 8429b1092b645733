//! Layout of a snowflake and the limits of a generator.

use vstd::prelude::*;

verus! {

/// Number of sequence slots of a generator; the sequence number is the call counter
/// taken modulo this value.
pub const RESET_INCREMENT: i64 = 4096;

/// Bits of a snowflake that hold the timestamp.
pub const TIMESTAMP_LENGTH: isize = 41;
/// Bits of a snowflake that hold the node id.
pub const INSTANCE_LENGTH: isize = 10;
/// Bits of a snowflake that hold the sequence number.
pub const SEQUENCE_LENGTH: isize = 12;

/// Position of the timestamp in a snowflake.
pub const TIMESTAMP_SHIFT: isize = INSTANCE_LENGTH + SEQUENCE_LENGTH;
/// Position of the node id in a snowflake.
pub const INSTANCE_SHIFT: isize = SEQUENCE_LENGTH;
/// Position of the sequence number in a snowflake.
pub const SEQUENCE_SHIFT: isize = 0;

/// Nanoseconds in one millisecond.
pub const NANOS_PER_MILLI: i64 = 1_000_000;

/// The largest timestamp a snowflake can hold, in milliseconds after the epoch: 2^41 - 1.
pub const MAX_TIMESTAMP_MILLIS: i64 = 2_199_023_255_551;

/// The largest timestamp a snowflake can hold, in nanoseconds after the epoch.
pub const MAX_TIMESTAMP_NANOS: i64 = 2_199_023_255_551_000_000;

/// The largest node id: 2^10 - 1.
pub const MAX_NODE_ID: i64 = 1023;

/// Shortest time between two uses of one sequence slot, in nanoseconds.
pub const MINIMUM_TIME_BETWEEN_RESET_NANOS: i64 = NANOS_PER_MILLI;

/// One millisecond, in nanoseconds.
pub const MILLISECOND_NANOS: i64 = NANOS_PER_MILLI;

/// Default size of an id buffer.
pub const DEFAULT_BUFFER_SIZE: usize = 16;

/// 2020-01-01T00:00:00Z, in milliseconds after the UNIX epoch.
pub const DEFAULT_EPOCH: i64 = 1_577_836_800_000;

} // verus!
