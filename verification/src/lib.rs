//! `adopt` — find the artifacts that were shipped but never installed, and
//! decide what to do about them.
//!
//! The crate holds the decision logic of the tool (verdicts, fix commands,
//! classifications, convergence checks, reconcile and apply decisions) as
//! verified functions over plain values.  Gathering those values from the
//! file system, git and the process environment is the job of the program
//! built on top of it.

pub mod text;
pub mod types;
pub mod paths;
pub mod verify;
pub mod converge;
pub mod report;
pub mod apply;
pub mod scan;
pub mod marker;
pub mod reconcile;
pub mod doctor;
pub mod repos;
pub mod documents;
