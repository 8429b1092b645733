//! Snowflake IDs: 64-bit identifiers made of a millisecond timestamp, a node id and a
//! per-generator sequence number, with their arithmetic and their generation rules proved.

use vstd::prelude::*;

pub mod constants;
pub mod error;
pub mod generator;

pub use constants::DEFAULT_EPOCH;
pub use error::{GeneratorError, HexaFreezeError, HexaFreezeResult};
pub use generator::Generator;

verus! {
} // verus!
