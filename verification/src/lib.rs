//! Decision logic of a log shipper: every file of a log directory is encrypted
//! and signed, uploaded to an object store, and removed once the upload is
//! confirmed.
//!
//! The crate holds no I/O. It reads the command line into a configuration and
//! drives the run as a state machine that a thin driver feeds with the results
//! of the work it performs.
//!
//! - [`args`] reads the command line.
//! - [`protocol`] is what library and driver say to each other.
//! - [`pipeline`] ships one file.
//! - [`walker`] is the run over all files of the directory.
//! - [`outside`], [`course`] and [`guarantees`] are proofs only: a model of
//!   the world the driver acts on, what the state machines do against it, and
//!   what follows for every run.

pub mod args;
pub mod course;
pub mod guarantees;
pub mod outside;
pub mod pipeline;
pub mod protocol;
pub mod walker;
