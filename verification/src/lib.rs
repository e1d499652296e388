//! Coverage-guided fuzzing of Android intents: a typed intent model with a
//! deterministic shell-command serialization and a stable hash, grammar-aware
//! mutation operators, device-command planning with dispatch classification,
//! and the coverage-socket protocol with its bitmap accumulation.

use vstd::prelude::*;

pub mod adb_device;
pub mod adb_executor;
pub mod byte_havoc;
pub mod floatfmt;
pub mod intent_generator;
pub mod intent_input;
pub mod intent_mutator;
pub mod socket_coverage_observer;
pub mod text;
pub mod util;

verus! {

} // verus!
