//! Closed Rust runtime operations. Adapters alone map these to programs and
//! argument vectors.
use vstd::prelude::*;
use crate::check::CheckOptions;
use crate::clippy::ClippyOptions;
use crate::coverage::{CoverageOptions, CoverageReportFormat};
use crate::explain::DiagnosticCode;
use crate::mutation_test::MutationTestCommandOptions;
use crate::nextest::NextestCommandOptions;

verus! {

#[derive(Clone, Debug)]
pub enum RustCommand {
    Metadata,
    FormatCheck,
    TestNextest(NextestCommandOptions),
    CoverageRun(CoverageOptions),
    CoverageReport(CoverageReportFormat),
    ClippyProject(ClippyOptions),
    Check,
    CheckProject(CheckOptions),
    CompilerVersion,
    Explain(DiagnosticCode),
    CargoVersion,
    LlvmCovVersion,
    InstalledComponents,
    SemverChecksVersion,
    /// One mutation-testing run over a private writable copy of the captured source.
    MutationTest(MutationTestCommandOptions),
    /// Argument-free identity probe of the mutation tester.
    MutantsVersion,
}

} // verus!
