//! Host-approved immutable Cargo directory-source data; no filesystem authority.
use vstd::prelude::*;
use crate::value::{SourceBundle, SourceFingerprint};

verus! {

#[derive(Clone, Debug, PartialEq, Eq)]
pub struct CargoVendorPackage {
    pub name: String,
    pub version: String,
    pub package_checksum: SourceFingerprint,
}

#[derive(Clone, Debug, PartialEq, Eq)]
pub struct CargoVendorSnapshot {
    pub source: SourceBundle,
    pub tree_fingerprint: SourceFingerprint,
    pub packages: Vec<CargoVendorPackage>,
}

} // verus!
