//! What holds of every run of the engine.
//!
//! The central law is [`conformance::lemma_run_follows_script`]: whatever
//! the filesystem answers, the engine asks for exactly the operations of
//! the post-order dialogue, comes to its end, and has then counted exactly
//! what the script's tally says; [`reports::lemma_run_tells_script`] adds
//! that a verbose engine tells exactly what the script has to report. The
//! other laws are read off the dialogue, the tally and the step function.
pub mod conformance;
pub mod order;
pub mod outcomes;
pub mod reports;
pub mod states;
