//! Closed Clippy selections; source lint policy can intentionally suppress lints.
use vstd::prelude::*;
use vstd::std_specs::convert::TryFromSpecImpl;
use crate::artifact::ArtifactMetadata;
use crate::check::{string_views, CheckObservation, CheckOptions, CheckSelection, InvalidCheckOptions, selection_valid};
use crate::evidence::SnapshotEvidence;
use crate::inspection::InspectionSemantics;
use crate::value::{ProjectIdentityFingerprint, ProjectRef};

verus! {

#[derive(Clone, Copy, Debug, Default, PartialEq, Eq, Structural)]
pub enum LintProfile {
    #[default]
    Default,
    Strict,
    Pedantic,
    Project,
}

/// A caller's Clippy selection, before validation.
#[derive(Clone, Debug, Default)]
pub struct ClippySelection {
    pub package: Option<String>,
    pub workspace: bool,
    pub features: Vec<String>,
    pub all_targets: bool,
    pub lint_profile: LintProfile,
}

/// The Cargo part of a Clippy selection.
pub open spec fn clippy_cargo_part(v: ClippySelection) -> CheckSelection {
    CheckSelection {
        package: v.package,
        workspace: v.workspace,
        features: v.features,
        all_features: false,
        no_default_features: false,
        all_targets: v.all_targets,
        target: None,
    }
}

/// A validated Clippy command.
#[derive(Clone, Debug, PartialEq, Eq)]
pub struct ClippyOptions {
    cargo: CheckOptions,
    lint_profile: LintProfile,
}

impl ClippyOptions {
    pub closed spec fn cargo_spec(&self) -> CheckOptions {
        self.cargo
    }

    pub closed spec fn lint_profile_spec(&self) -> LintProfile {
        self.lint_profile
    }

    /// Validates the Cargo selection; the lint profile is closed by its type.
    pub fn from_selection(value: ClippySelection) -> (res: Result<Self, InvalidCheckOptions>)
        ensures
            res is Ok <==> selection_valid(clippy_cargo_part(value)),
            res matches Ok(o) ==> o.cargo_spec().validates(clippy_cargo_part(value))
                && o.lint_profile_spec() == value.lint_profile,
    {
        let lint_profile = value.lint_profile;
        let cargo = CheckOptions::from_selection(
            CheckSelection {
                package: value.package,
                workspace: value.workspace,
                features: value.features,
                all_features: false,
                no_default_features: false,
                all_targets: value.all_targets,
                target: None,
            },
        )?;
        Ok(ClippyOptions { cargo, lint_profile })
    }

    pub fn package(&self) -> (res: Option<&str>)
        ensures
            match res {
                Some(p) => self.cargo_spec().package_spec() == Some(p@),
                None => self.cargo_spec().package_spec() is None,
            },
    {
        self.cargo.package()
    }

    pub fn workspace(&self) -> (res: bool)
        ensures
            res == self.cargo_spec().workspace_spec(),
    {
        self.cargo.workspace()
    }

    pub fn features(&self) -> (res: &[String])
        ensures
            string_views(res@) == self.cargo_spec().features_spec(),
    {
        self.cargo.features()
    }

    pub fn all_targets(&self) -> (res: bool)
        ensures
            res == self.cargo_spec().all_targets_spec(),
    {
        self.cargo.all_targets()
    }

    pub fn lint_profile(&self) -> (res: LintProfile)
        ensures
            res == self.lint_profile_spec(),
    {
        self.lint_profile
    }
}

impl std::convert::TryFrom<ClippySelection> for ClippyOptions {
    type Error = InvalidCheckOptions;

    fn try_from(value: ClippySelection) -> (res: Result<Self, InvalidCheckOptions>)
        ensures
            res is Ok <==> selection_valid(clippy_cargo_part(value)),
            res matches Ok(o) ==> o.cargo_spec().validates(clippy_cargo_part(value))
                && o.lint_profile_spec() == value.lint_profile,
    {
        ClippyOptions::from_selection(value)
    }
}

/// The conversion is [`ClippyOptions::from_selection`]; `try_from` states its
/// result in its own `ensures`, and no single value is named here.
impl TryFromSpecImpl<ClippySelection> for ClippyOptions {
    open spec fn obeys_try_from_spec() -> bool {
        false
    }

    open spec fn try_from_spec(value: ClippySelection) -> Result<Self, InvalidCheckOptions> {
        Err(InvalidCheckOptions)
    }
}

#[derive(Clone, Debug)]
pub struct ProjectClippy {
    pub project_ref: ProjectRef,
    pub project_identity_fingerprint: ProjectIdentityFingerprint,
    pub semantics: InspectionSemantics,
    pub options: ClippyOptions,
    pub observation: CheckObservation,
    pub evidence: SnapshotEvidence,
    pub log: Option<ArtifactMetadata>,
    pub retention_remaining_seconds: Option<u64>,
}

} // verus!
