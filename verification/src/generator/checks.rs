//! The checks a generator's configuration must pass.

use vstd::prelude::*;
use crate::constants::{MAX_NODE_ID, MAX_TIMESTAMP_NANOS};
use crate::error::{HexaFreezeError, HexaFreezeResult};
use crate::generator::nano::Nanosecond;
use crate::generator::util;

verus! {

/// Whether `id` is a valid node id: from 0 to 1023.
pub open spec fn valid_node_id(id: int) -> bool {
    0 <= id <= MAX_NODE_ID
}

/// The outcome of checking an epoch (in nanoseconds) against the time `now` (in
/// nanoseconds): the epoch may not lie after `now`, nor further than the largest snowflake
/// timestamp before it.
pub open spec fn epoch_check(epoch: int, now: int) -> HexaFreezeResult<()> {
    if now - epoch < 0 {
        Err(HexaFreezeError::EpochInTheFuture)
    } else if now - epoch > MAX_TIMESTAMP_NANOS {
        Err(HexaFreezeError::EpochTooFarInThePast)
    } else {
        Ok(())
    }
}

/// Checks that `id` is a valid node id.
pub fn check_node_id(id: i64) -> (r: HexaFreezeResult<()>)
    ensures
        r is Ok <==> valid_node_id(id as int),
        r is Ok <==> 0 <= id <= 1023,
        r matches Err(e) ==> e == HexaFreezeError::NodeIdTooLarge,
{
    if id < 0 || id > MAX_NODE_ID {
        return Err(HexaFreezeError::NodeIdTooLarge);
    }
    Ok(())
}

/// Checks the epoch `epoch` (in nanoseconds, which may lie beyond the range of an `i64`)
/// against the time `now`, taking the distance between them exactly.
pub(crate) fn check_epoch_nanos_at(epoch: i128, now: Nanosecond) -> (r: HexaFreezeResult<()>)
    requires
        -0x1_0000_0000_0000_0000_0000_0000 <= epoch <= 0x1_0000_0000_0000_0000_0000_0000,
    ensures
        r == epoch_check(epoch as int, now.0 as int),
{
    let distance: i128 = now.0 as i128 - epoch;
    if distance < 0 {
        return Err(HexaFreezeError::EpochInTheFuture);
    }
    if distance > MAX_TIMESTAMP_NANOS as i128 {
        return Err(HexaFreezeError::EpochTooFarInThePast);
    }
    Ok(())
}

/// Checks `epoch` against the time `now`. The distance between them is taken exactly, also
/// where it does not fit in an `i64`.
pub fn check_epoch_at(epoch: Nanosecond, now: Nanosecond) -> (r: HexaFreezeResult<()>)
    ensures
        r == epoch_check(epoch.0 as int, now.0 as int),
{
    check_epoch_nanos_at(epoch.0 as i128, now)
}

/// Checks `epoch` against the current time.
pub fn check_epoch(epoch: Nanosecond) -> (r: HexaFreezeResult<()>)
    ensures
        exists|now: i64| r == epoch_check(epoch.0 as int, now as int),
{
    let now = util::now();
    check_epoch_at(epoch, now)
}

} // verus!
