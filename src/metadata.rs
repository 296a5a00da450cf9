//! The package metadata and build manifest as plain records. Maps are kept
//! as lists of (key, value) pairs in their document order.
use vstd::prelude::*;

verus! {

#[derive(Debug, Clone)]
pub struct PackageInfo {
    pub name: String,
    pub version: String,
}

/// One slot as the metadata document describes it.
#[derive(Debug, Clone)]
pub struct SlotMetadata {
    pub index: usize,
    pub id: String,
    pub source: String,
    pub target: String,
    pub size: i64,
    pub checksum: String,
    pub operations: String,
    pub purpose: String,
    pub lifecycle: String,
    pub permissions: Option<String>,
    pub resolution: Option<String>,
    pub self_ref: Option<bool>,
}

#[derive(Debug, Clone)]
pub struct ExecutionInfo {
    pub primary_slot: usize,
    pub command: String,
    pub env: Vec<(String, String)>,
}

#[derive(Debug, Clone)]
pub struct IntegritySealInfo {
    pub required: bool,
    pub algorithm: String,
}

#[derive(Debug, Clone)]
pub struct SignerInfo {
    pub name: String,
    pub key_id: String,
    pub algorithm: String,
}

#[derive(Debug, Clone)]
pub struct TrustSignaturesInfo {
    pub required: bool,
    pub signers: Vec<SignerInfo>,
}

#[derive(Debug, Clone)]
pub struct VerificationInfo {
    pub integrity_seal: IntegritySealInfo,
    pub signed: bool,
    pub require_verification: bool,
    pub trust_signatures: Option<TrustSignaturesInfo>,
}

#[derive(Debug, Clone)]
pub struct PlatformInfo {
    pub os: String,
    pub arch: String,
    pub host: String,
}

#[derive(Debug, Clone)]
pub struct BuildInfo {
    pub tool: String,
    pub tool_version: String,
    pub timestamp: String,
    pub deterministic: bool,
    pub platform: PlatformInfo,
}

#[derive(Debug, Clone)]
pub struct LauncherInfo {
    pub tool: String,
    pub tool_version: String,
    pub size: i64,
    pub checksum: String,
    pub capabilities: Vec<String>,
}

#[derive(Debug, Clone)]
pub struct CompatibilityInfo {
    pub min_format_version: String,
    pub features: Vec<String>,
}

/// A file whose content tells whether a workenv is still valid.
#[derive(Debug, Clone)]
pub struct CacheValidationInfo {
    pub check_file: String,
    pub expected_content: String,
}

/// The `runtime.env` transformations: names to unset, renames, literal
/// assignments, and names to pass through untouched.
#[derive(Debug, Clone)]
pub struct RuntimeEnv {
    pub unset: Option<Vec<String>>,
    pub map: Option<Vec<(String, String)>>,
    pub set: Option<Vec<(String, String)>>,
    pub pass: Option<Vec<String>>,
}

#[derive(Debug, Clone)]
pub struct RuntimeInfo {
    pub env: Option<RuntimeEnv>,
}

/// A directory to create in the workenv, with an optional octal mode.
#[derive(Debug, Clone)]
pub struct DirectorySpec {
    pub path: String,
    pub mode: Option<String>,
}

#[derive(Debug, Clone)]
pub struct WorkenvInfo {
    pub directories: Option<Vec<DirectorySpec>>,
    pub env: Option<Vec<(String, String)>>,
}

/// One slot as a build manifest declares it.
#[derive(Debug, Clone)]
pub struct ManifestSlot {
    pub slot: Option<i32>,
    pub id: String,
    pub source: String,
    pub target: String,
    pub operations: String,
    pub purpose: String,
    pub lifecycle: String,
    pub permissions: Option<String>,
    pub resolution: Option<String>,
}

/// The purpose a manifest slot has when it names none.
pub fn default_purpose() -> (r: String)
    ensures
        r@ == "data"@,
{
    String::from_str("data")
}

/// The lifecycle a manifest slot has when it names none.
pub fn default_lifecycle() -> (r: String)
    ensures
        r@ == "runtime"@,
{
    String::from_str("runtime")
}

pub fn default_true() -> (r: bool)
    ensures
        r,
{
    true
}

} // verus!
