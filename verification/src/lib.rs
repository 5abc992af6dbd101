//! Deletion of a directory tree, children before parents, with every
//! failure on the way counted instead of ending the run.
//!
//! The library holds the decisions of the traversal and leaves the
//! filesystem to its caller. [`engine::DeletionEngine`] is a state machine:
//! it names the next filesystem operation, the caller performs it and hands
//! back its outcome, and so on until the engine declares the run finished.
//!
//! - [`protocol`]: the operations the engine asks for and the outcomes it is
//!   told.
//! - [`machine`]: the engine as a mathematical state machine.
//! - [`engine`]: the engine in executable form.
//! - [`stats`]: the counters of a run.
//! - [`script`]: whole runs written down, tree by tree.
//! - [`laws`]: what is proved of every run.
//! - [`format`], [`confirm`]: byte counts for people, and the answer to the
//!   question whether to go ahead.
//! - [`path`]: filesystem paths as opaque values.
pub mod confirm;
pub mod engine;
pub mod format;
pub mod laws;
pub mod machine;
pub mod path;
pub mod protocol;
pub mod script;
pub mod stats;
