//! Decision core of the BuckOS update agent and image installer.
//!
//! An ostree-based BuckOS system is driven through the `ostree` command line.
//! This library holds everything the agent decides: which command comes next,
//! what an answer means, when a remote may be trusted, and what is reported.
//! It performs no input or output itself. Each operation is a function from the
//! answers received so far to the next [`exchange::Step`]: either one more
//! request to carry out, or the final result.

pub mod agent;
pub mod display;
pub mod error;
pub mod exchange;
pub mod install;
pub mod laws;
pub mod number;
pub mod path;
pub mod remote;
pub mod report;
pub mod source;
pub mod status;
pub mod text;

pub use agent::{CheckResult, Ostree, UpdateConfig};
pub use error::UpdateError;
pub use exchange::{Reply, Request, Step};
