//! Captured project facts; no Cargo, filesystem, protocol or database API.
use vstd::prelude::*;
use crate::evidence::SnapshotEvidence;
use crate::value::{ExecutionFingerprint, ProjectIdentityFingerprint, ProjectRef, SourceFingerprint};

verus! {
#[derive(Clone, Copy, Debug, PartialEq, Eq, Structural)]
pub enum RustEdition {
    E2015,
    E2018,
    E2021,
    E2024,
}
#[derive(Clone, Copy, Debug, PartialEq, Eq, Structural)]
pub enum TargetKind {
    Lib,
    Bin,
    Example,
    Test,
    Bench,
    CustomBuild,
    ProcMacro,
    Rlib,
    Dylib,
    Cdylib,
    Staticlib,
}
#[derive(Clone, Copy, Debug, PartialEq, Eq, Structural)]
pub enum DeclaredDependencyKind {
    Normal,
    Build,
    Dev,
}
#[derive(Clone, Copy, Debug, PartialEq, Eq, Structural)]
pub enum DependencySourceKind {
    Path,
    Registry,
    Git,
}
#[derive(Clone, Debug)]
pub struct DependencyOrigin {
    pub kind: DependencySourceKind,
    /// Identity of the declared source, never a credential-bearing URL.
    pub identity: SourceFingerprint,
    pub relative_path: Option<String>,
}
#[derive(Clone, Debug)]
pub struct DirectDependency {
    pub name: String,
    pub rename: Option<String>,
    pub version_requirement: String,
    pub kind: DeclaredDependencyKind,
    pub optional: bool,
    pub uses_default_features: bool,
    pub features: Vec<String>,
    pub target_condition: Option<String>,
    pub origin: DependencyOrigin,
}
#[derive(Clone, Debug)]
pub struct DeclaredFeature {
    pub name: String,
    pub activations: Vec<String>,
}
#[derive(Clone, Debug)]
pub struct ProjectTarget {
    pub name: String,
    pub kinds: Vec<TargetKind>,
    pub crate_types: Vec<TargetKind>,
    pub source_path: String,
    pub edition: RustEdition,
    pub required_features: Vec<String>,
    pub test: bool,
    pub doctest: bool,
}
#[derive(Clone, Debug)]
pub struct ProjectPackage {
    pub package_index: u32,
    pub name: String,
    pub version: String,
    pub manifest_path: String,
    pub edition: RustEdition,
    pub rust_version: Option<String>,
    pub targets: Vec<ProjectTarget>,
    pub features: Vec<DeclaredFeature>,
    pub direct_dependencies: Vec<DirectDependency>,
}
#[derive(Clone, Debug)]
pub enum ProfileValue {
    Boolean(bool),
    Integer(u32),
    Text(String),
}
#[derive(Clone, Copy, Debug, PartialEq, Eq, Structural)]
pub enum ProfileSettingName {
    OptLevel,
    Debug,
    SplitDebuginfo,
    Strip,
    DebugAssertions,
    OverflowChecks,
    Lto,
    Panic,
    Incremental,
    CodegenUnits,
    Rpath,
}
#[derive(Clone, Debug)]
pub struct ProfileSetting {
    pub name: ProfileSettingName,
    pub value: ProfileValue,
}
#[derive(Clone, Debug)]
pub struct PackageProfile {
    pub package: String,
    pub settings: Vec<ProfileSetting>,
}
#[derive(Clone, Debug)]
pub struct DeclaredProfile {
    pub name: String,
    pub inherits: Option<String>,
    pub settings: Vec<ProfileSetting>,
    pub package_overrides: Vec<PackageProfile>,
    pub build_override: Vec<ProfileSetting>,
}
#[derive(Clone, Copy, Debug)]
pub enum ProjectConfigPolicy {
    Rejected,
}
#[derive(Clone, Debug)]
pub struct CargoConfiguration {
    pub project_config_policy: ProjectConfigPolicy,
    pub frozen: bool,
    pub offline: bool,
    pub incremental: bool,
    pub target_directory_ephemeral: bool,
}
#[derive(Clone, Debug)]
pub struct RuntimeIdentity {
    pub platform: String,
    pub image_id: String,
    pub configuration_fingerprint: ExecutionFingerprint,
    pub execution_fingerprint: ExecutionFingerprint,
    pub rust_version: String,
    pub cargo_version: String,
    pub declared_toolchain: Option<String>,
}
#[derive(Clone, Debug)]
pub struct ProjectStructure {
    pub workspace_members: Vec<u32>,
    pub workspace_default_members: Vec<u32>,
    pub packages: Vec<ProjectPackage>,
    pub profiles: Vec<DeclaredProfile>,
    pub cargo_configuration: CargoConfiguration,
    pub runtime: RuntimeIdentity,
    pub source_fingerprint: SourceFingerprint,
}
#[derive(Clone, Copy, Debug)]
pub enum InspectionSemantics {
    LatestKnown,
}
#[derive(Clone, Debug)]
pub struct ProjectInspection {
    pub project_ref: ProjectRef,
    pub project_identity_fingerprint: ProjectIdentityFingerprint,
    pub semantics: InspectionSemantics,
    pub structure: ProjectStructure,
    pub evidence: SnapshotEvidence,
}

} // verus!
