//! The library's error type and the exit codes that front-ends map it to.
use vstd::prelude::*;

verus! {

pub const EXIT_SUCCESS: i32 = 0;
pub const EXIT_ERROR: i32 = 1;
pub const EXIT_PANIC: i32 = 101;
pub const EXIT_PSPF_ERROR: i32 = 102;
pub const EXIT_EXTRACTION_ERROR: i32 = 103;
pub const EXIT_EXECUTION_ERROR: i32 = 104;
pub const EXIT_INVALID_ARGS: i32 = 105;
pub const EXIT_IO_ERROR: i32 = 106;
pub const EXIT_SIGNATURE_ERROR: i32 = 107;
pub const EXIT_BUILD_ERROR: i32 = 108;
pub const EXIT_CONFIG_ERROR: i32 = 109;
pub const EXIT_DEPENDENCY_ERROR: i32 = 110;

/// What went wrong, by kind.
#[derive(Debug, Clone, PartialEq, Eq)]
pub enum FlavorError {
    /// A sentinel of the magic trailer is wrong or the file is too short.
    InvalidMagic,
    /// A region has the wrong size or lies outside the data.
    InvalidSize,
    /// A stored checksum does not match the data.
    ChecksumMismatch,
    /// An Ed25519 signature did not verify, or key or signature is all zero.
    SignatureInvalid,
    /// An operation code that this reader does not implement.
    UnknownOperation(u8),
    /// A slot declares TAR but its decoded bytes are no tar archive.
    OperationMismatch,
    /// A decoder rejected the bytes.
    Decode(String),
    /// The bytes are not a PE image that can be transformed.
    InvalidPe(String),
    /// A malformed manifest or slot list.
    Manifest(String),
    /// Another process holds a live extraction lock.
    LockContention,
    /// The cache stayed invalid after the peer extractor finished.
    CacheInvalidAfterPeer,
    /// Exact `pass` names that are absent after the environment was processed.
    MissingRequiredEnv(Vec<String>),
    /// A setup command failed.
    SetupFailed(String),
    /// No launcher binary was given.
    LauncherMissing,
    /// A read, write, rename or permission change failed.
    Io(String),
}

/// The process exit code for each kind of error.
pub open spec fn exit_code_of(e: FlavorError) -> i32 {
    match e {
        FlavorError::InvalidMagic => EXIT_PSPF_ERROR,
        FlavorError::InvalidSize => EXIT_PSPF_ERROR,
        FlavorError::ChecksumMismatch => EXIT_PSPF_ERROR,
        FlavorError::UnknownOperation(_) => EXIT_PSPF_ERROR,
        FlavorError::InvalidPe(_) => EXIT_PSPF_ERROR,
        FlavorError::SignatureInvalid => EXIT_SIGNATURE_ERROR,
        FlavorError::OperationMismatch => EXIT_EXTRACTION_ERROR,
        FlavorError::Decode(_) => EXIT_EXTRACTION_ERROR,
        FlavorError::LockContention => EXIT_EXTRACTION_ERROR,
        FlavorError::CacheInvalidAfterPeer => EXIT_EXTRACTION_ERROR,
        FlavorError::Manifest(_) => EXIT_BUILD_ERROR,
        FlavorError::MissingRequiredEnv(_) => EXIT_CONFIG_ERROR,
        FlavorError::SetupFailed(_) => EXIT_EXECUTION_ERROR,
        FlavorError::LauncherMissing => EXIT_INVALID_ARGS,
        FlavorError::Io(_) => EXIT_IO_ERROR,
    }
}

impl FlavorError {
    /// The exit code that a front-end reports for this error.
    pub fn exit_code(&self) -> (r: i32)
        ensures
            r == exit_code_of(*self),
    {
        match self {
            FlavorError::InvalidMagic => EXIT_PSPF_ERROR,
            FlavorError::InvalidSize => EXIT_PSPF_ERROR,
            FlavorError::ChecksumMismatch => EXIT_PSPF_ERROR,
            FlavorError::UnknownOperation(_) => EXIT_PSPF_ERROR,
            FlavorError::InvalidPe(_) => EXIT_PSPF_ERROR,
            FlavorError::SignatureInvalid => EXIT_SIGNATURE_ERROR,
            FlavorError::OperationMismatch => EXIT_EXTRACTION_ERROR,
            FlavorError::Decode(_) => EXIT_EXTRACTION_ERROR,
            FlavorError::LockContention => EXIT_EXTRACTION_ERROR,
            FlavorError::CacheInvalidAfterPeer => EXIT_EXTRACTION_ERROR,
            FlavorError::Manifest(_) => EXIT_BUILD_ERROR,
            FlavorError::MissingRequiredEnv(_) => EXIT_CONFIG_ERROR,
            FlavorError::SetupFailed(_) => EXIT_EXECUTION_ERROR,
            FlavorError::LauncherMissing => EXIT_INVALID_ARGS,
            FlavorError::Io(_) => EXIT_IO_ERROR,
        }
    }
}

} // verus!
