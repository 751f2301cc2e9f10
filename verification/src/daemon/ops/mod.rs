//! The operations of the daemon: what each one refuses, in which order it acts, and what it
//! takes back when it fails.
//!
//! An operation that has to look at the host or to change it is a job. The job says what to do
//! next, is told what came of it, and goes on from there until it replies or refuses.
pub mod shared;
pub mod start;
pub mod create;
pub mod volumes;
pub mod destroy;
pub mod image;
pub mod stop;
pub mod report;
pub mod laws;
pub mod shown;
pub mod reasons;
pub mod outcomes;
