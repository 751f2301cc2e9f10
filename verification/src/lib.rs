//! The logic of a desktop whose applications run in virtual machines ("spaces"): what the daemon
//! decides, what the trusted label shows, what the manager lets the operator do.
use vstd::prelude::*;

pub mod accounts;
pub mod agent;
pub mod broker;
pub mod bytes;
pub mod daemon;
pub mod guest;
pub mod ids;
pub mod json;
pub mod label;
pub mod manager;
pub mod names;
pub mod order;
pub mod paths;
pub mod text;
pub mod toml;

verus! {

} // verus!
