//! Domain values and validated results for a Rust engineering service, with
//! their contracts proved by Verus. Nothing here performs I/O.
#![allow(unused_imports)]

pub mod text;
pub mod value;

pub mod diagnostic;
pub mod line_index;
pub mod execution;
pub mod analyzer;
pub mod job;
pub mod sha256;
pub mod evidence;
pub mod result;
pub mod inspection;
pub mod artifact;
pub mod check;
pub mod mutation_test;
pub mod nextest;
pub mod clippy;
pub mod coverage;
pub mod miri;
pub mod bloat;
pub mod quality_artifact;
pub mod benchmark;
pub mod benchmark_run;
pub mod security;
pub mod audit;
pub mod format;
pub mod test_run;
pub mod quality;
pub mod profile;
pub mod mutation;
pub mod catalog;
pub mod semantic;
pub mod catalog_context;
pub mod crate_search;
pub mod crate_inspect;
pub mod manifest_edit;
pub mod explain;
pub mod resolution;
pub mod rust_execution;
pub mod rust_mutation;
pub mod cargo_vendor;
pub mod benchmark_compare;
pub mod comparison_plan;
