//! Errors of the generator.

use vstd::prelude::*;

verus! {

/// Why a generator could not be built or could not hand out an id.
#[derive(Debug, Clone, Copy, PartialEq, Eq, Structural)]
pub enum HexaFreezeError {
    /// The epoch lies in the future.
    EpochInTheFuture,
    /// The epoch lies more than the timestamp field can hold in the past.
    EpochTooFarInThePast,
    /// The node id is less than 0 or bigger than 1023.
    NodeIdTooLarge,
    /// The clock jumped backwards in time.
    ClockWentBackInTime,
    /// The generator has handed out as many sequence numbers as an `i64` counts.
    Surpassed64BitLimit,
}

/// Result of the generator's operations.
pub type HexaFreezeResult<T> = Result<T, HexaFreezeError>;

impl HexaFreezeError {
    /// The human-readable message of the error.
    pub fn message(&self) -> (r: &'static str)
        ensures
            r@ == match self {
                HexaFreezeError::EpochInTheFuture => "Epoch is too far in the future!"@,
                HexaFreezeError::EpochTooFarInThePast => "Epoch is too far in the past!"@,
                HexaFreezeError::NodeIdTooLarge => "The node_id less than 0 or bigger than 1023"@,
                HexaFreezeError::ClockWentBackInTime => "Your clock jumped backwards in time!"@,
                HexaFreezeError::Surpassed64BitLimit =>
                    "You've generated more than 9,223,372,036,854,775,807 ids!"@,
            },
    {
        match self {
            HexaFreezeError::EpochInTheFuture => "Epoch is too far in the future!",
            HexaFreezeError::EpochTooFarInThePast => "Epoch is too far in the past!",
            HexaFreezeError::NodeIdTooLarge => "The node_id less than 0 or bigger than 1023",
            HexaFreezeError::ClockWentBackInTime => "Your clock jumped backwards in time!",
            HexaFreezeError::Surpassed64BitLimit =>
                "You've generated more than 9,223,372,036,854,775,807 ids!",
        }
    }
}

/// Why reading the clock in microseconds failed.
#[derive(Debug, Clone, Copy, PartialEq, Eq, Structural)]
pub enum GeneratorError {
    /// The clock reading does not fit in an `i64` of microseconds.
    ItsTheFuture,
}

} // verus!
