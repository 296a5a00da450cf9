//! The library's entry points over a package held in memory.
use crate::crypto::{gunzip, gunzip_of, gunzip_ok};
use crate::error::FlavorError;
use crate::index::{index_bytes, Index};
use crate::metadata::PackageInfo;
use crate::package::{read_at, trailer_index, trailer_ok};
use crate::seal::{metadata_region, seal_report_of, verify, SealReport};
use vstd::prelude::*;

verus! {

/// Package formats this library reads.
#[derive(Debug, Clone, Copy, PartialEq, Eq, Structural)]
pub enum PackageFormat {
    PSPF2025,
}

/// The format of a package, told by its magic trailer.
pub fn detect_format(data: &[u8]) -> (r: Result<PackageFormat, FlavorError>)
    ensures
        r is Ok <==> trailer_ok(data@),
        r is Ok ==> r->Ok_0 == PackageFormat::PSPF2025,
        r is Err ==> r == Err::<PackageFormat, FlavorError>(FlavorError::InvalidMagic),
{
    match crate::package::read_magic_trailer(data) {
        Ok(_) => Ok(PackageFormat::PSPF2025),
        Err(e) => Err(e),
    }
}

/// Options of a build, as front-ends collect them.
#[derive(Debug, Clone)]
pub struct BuildOptions {
    pub launcher_bin: Option<String>,
    pub skip_verification: bool,
    pub private_key_path: Option<String>,
    pub public_key_path: Option<String>,
    pub key_seed: Option<String>,
    pub workenv_base: Option<String>,
}

/// Options of a launch.
#[derive(Debug, Clone)]
pub struct LaunchOptions {
    pub workdir: Option<String>,
}

/// What verifying a package reports.
#[derive(Debug, Clone)]
pub struct VerifyResult {
    pub format: String,
    pub version: String,
    pub signature_valid: bool,
    pub slot_count: usize,
    pub package_name: String,
    pub package_version: String,
}

impl VerifyResult {
    /// The report for a package whose metadata names `package` and lists
    /// `slot_count` slots.
    pub fn new(report: &SealReport, package: &PackageInfo, slot_count: usize) -> (r: VerifyResult)
        ensures
            r.format@ == "PSPF/2025"@,
            r.version@ == "0x20250001"@,
            r.signature_valid == (report.index_checksum_valid && report.metadata_checksum_valid
                && report.size_valid && report.integrity_seal_valid && report.trailing_magic_valid),
            r.slot_count == slot_count,
            r.package_name@ == package.name@,
            r.package_version@ == package.version@,
    {
        VerifyResult {
            format: String::from_str("PSPF/2025"),
            version: String::from_str("0x20250001"),
            signature_valid: report.signature_valid(),
            slot_count,
            package_name: package.name.clone(),
            package_version: package.version.clone(),
        }
    }
}

/// Verify a package held in memory: the seal report and the decompressed
/// metadata JSON, whose name, version and slots the caller reads.
pub fn verify_package(data: &[u8]) -> (r: Result<(SealReport, Vec<u8>), FlavorError>)
    ensures
        !trailer_ok(data@) ==> r == Err::<(SealReport, Vec<u8>), FlavorError>(FlavorError::InvalidMagic),
        trailer_ok(data@) && r is Err ==> exists|idx: Index|
            index_bytes(idx) == trailer_index(data@) && (idx.metadata_offset + idx.metadata_size
                > data@.len() || !gunzip_ok(metadata_region(data@, idx))),
        r is Ok ==> exists|idx: Index|
            index_bytes(idx) == trailer_index(data@) && r->Ok_0.0 == seal_report_of(data@, idx)
                && gunzip_ok(metadata_region(data@, idx)) && r->Ok_0.1@ == gunzip_of(
                metadata_region(data@, idx),
            ),
{
    let (index, report) = match verify(data) {
        Ok(v) => v,
        Err(e) => {
            return Err(e);
        },
    };
    let compressed = match read_at(data, index.metadata_offset, index.metadata_size) {
        Ok(m) => m,
        Err(e) => {
            return Err(e);
        },
    };
    let json = match gunzip(compressed.as_slice()) {
        Ok(j) => j,
        Err(e) => {
            return Err(FlavorError::Decode(e));
        },
    };
    Ok((report, json))
}

} // verus!
