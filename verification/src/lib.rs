//! Supervisor logic for a command-driven appliance controller.
//!
//! The crate verifies the decision core of a small daemon that keeps a
//! session to a networked appliance alive, turns text commands into typed
//! protocol calls, suppresses audio commands while the appliance is not the
//! active audio sink, and reconnects after a failed probe call.  All
//! input/output (the command pipe, process invocations, the network session)
//! stays outside; the functions here work on plain values and say in their
//! contracts exactly what the daemon decides.

pub mod command;
pub mod errors;
pub mod laws;
pub mod resolver;
pub mod supervisor;
pub mod text;
pub mod volume;
