use rust_engineering_domain::artifact::ArtifactError;
use rust_engineering_domain::benchmark::BenchmarkError;
use rust_engineering_domain::job::JobContractError;
use rust_engineering_domain::line_index::AnalyzerError;
use rust_engineering_domain::quality_artifact::QualityArtifactError;
use rust_engineering_domain::security::InvalidSecurityPolicy;
use rust_engineering_domain::catalog::CatalogError;
use rust_engineering_domain::check::InvalidCheckOptions;
use rust_engineering_domain::coverage::InvalidCoverageMetric;
use rust_engineering_domain::mutation_test::InvalidMutationRow;
use rust_engineering_domain::nextest::InvalidNextestRow;
use rust_engineering_domain::semantic::SemanticError;

#[test]
fn refusals_carry_their_fixed_text() {
    assert_eq!(AnalyzerError::NotUtf8.message(), "source bytes are not valid UTF-8");
    assert_eq!(AnalyzerError::UnknownSymbolKind.message(), "LSP SymbolKind is outside 1..=26");
    assert_eq!(ArtifactError::ClockOverflow.message(), "artifact expiry exceeds clock range");
    assert_eq!(BenchmarkError::EmptyDataset.message(), "dataset carries no measurement");
    assert_eq!(JobContractError::InvalidDeadline.message(), "invalid job deadline");
    assert_eq!(QualityArtifactError::RetentionDenied.message(), "quality artifact retention not granted");
    assert_eq!(InvalidSecurityPolicy.message(), "invalid or expired security policy");
}

#[test]
fn row_and_selection_refusals_carry_their_fixed_text() {
    assert_eq!(InvalidCheckOptions.message(), "invalid Cargo selection");
    assert_eq!(InvalidCoverageMetric.message(), "invalid coverage metric");
    assert_eq!(InvalidMutationRow.message(), "mutant row is empty, oversized or not printable ASCII");
    assert_eq!(InvalidNextestRow.message(), "nextest test row exceeds bounded name/classname length");
}

#[test]
fn catalog_and_semantic_refusals_name_their_variant() {
    assert_eq!(CatalogError::Rollback.message(), "catalog operation rejected: Rollback");
    assert_eq!(CatalogError::InvalidInput.message(), "catalog operation rejected: InvalidInput");
    assert_eq!(SemanticError::MissingModel.message(), "semantic operation unavailable: MissingModel");
    assert_eq!(SemanticError::Inference.message(), "semantic operation unavailable: Inference");
}
