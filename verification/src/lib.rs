//! Transaction submission and confirmation-waiting types for a JSON-RPC
//! gateway: wait levels, the outcome waiter's state machine, the error
//! taxonomy with its canonical wire encoding, and response assembly.

pub mod api;
pub mod data;
pub mod errors;
pub mod translate;
pub mod text;
pub mod wait_level;
pub mod waiter;
pub mod wire;

use vstd::prelude::*;

verus! {

} // verus!
