//! What one captured `cargo test` run reports beside its command execution.
use vstd::prelude::*;
use crate::check::CheckObservation;

verus! {

#[derive(Clone, Debug)]
pub struct TestObservation {
    pub execution: CheckObservation,
    /// Whether the test targets built; `None` when the run never said.
    pub build_succeeded: Option<bool>,
}

} // verus!
