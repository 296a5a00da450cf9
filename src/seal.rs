//! The integrity seal: five independent checks of a package, reported
//! together; `signature_valid` is their conjunction.
use crate::codec::{all_zero, sha256, sha256_of};
use crate::constants::{magic_wand, FORMAT_VERSION};
use crate::crypto::{ed25519_verifies, gunzip, gunzip_of, gunzip_ok, verify_signature};
use crate::error::FlavorError;
use crate::index::{block_checksum, index_bytes, Index};
use crate::package::{read_at, read_magic_trailer, trailer_index, trailer_ok};
use vstd::prelude::*;

verus! {

/// The outcome of each check of the integrity seal.
#[derive(Clone, Copy, Debug, PartialEq, Eq, Structural)]
pub struct SealReport {
    pub index_checksum_valid: bool,
    pub metadata_checksum_valid: bool,
    pub size_valid: bool,
    pub integrity_seal_valid: bool,
    pub trailing_magic_valid: bool,
}

impl SealReport {
    /// All five checks passed.
    pub fn signature_valid(&self) -> (r: bool)
        ensures
            r == (self.index_checksum_valid && self.metadata_checksum_valid && self.size_valid
                && self.integrity_seal_valid && self.trailing_magic_valid),
    {
        self.index_checksum_valid && self.metadata_checksum_valid && self.size_valid
            && self.integrity_seal_valid && self.trailing_magic_valid
    }
}

/// The compressed metadata region that `idx` names.
pub open spec fn metadata_region(d: Seq<u8>, idx: Index) -> Seq<u8> {
    d.subrange(idx.metadata_offset as int, idx.metadata_offset + idx.metadata_size)
}

/// The Ed25519 check over the decompressed metadata: key and signature not
/// all zero, and the signature (first 64 bytes of its field) verifies.
pub open spec fn seal_holds(idx: Index, metadata: Seq<u8>) -> bool {
    &&& !(forall|i: int| 0 <= i < 512 ==> idx.integrity_signature@[i] == 0)
    &&& !(forall|i: int| 0 <= i < 32 ==> idx.public_key@[i] == 0)
    &&& ed25519_verifies(
        idx.public_key@,
        gunzip_of(metadata),
        idx.integrity_signature@.subrange(0, 64),
    )
}

/// Check the Ed25519 signature of the decompressed metadata. Fails only when
/// the metadata is no complete gzip stream.
pub fn verify_integrity_seal(metadata: &[u8], index: &Index) -> (r: Result<bool, FlavorError>)
    ensures
        r is Err <==> !gunzip_ok(metadata@),
        r is Ok ==> r->Ok_0 == seal_holds(*index, metadata@),
{
    let json = match gunzip(metadata) {
        Ok(j) => j,
        Err(e) => {
            return Err(FlavorError::Decode(e));
        },
    };
    if all_zero(index.integrity_signature.as_slice()) {
        return Ok(false);
    }
    if all_zero(index.public_key.as_slice()) {
        return Ok(false);
    }
    let sig: [u8; 64] = crate::codec::read_array(index.integrity_signature.as_slice(), 0);
    Ok(verify_signature(json.as_slice(), &sig, &index.public_key))
}

/// The seal checks of a package, as `verify` computes them.
pub open spec fn seal_report_of(d: Seq<u8>, idx: Index) -> SealReport {
    SealReport {
        index_checksum_valid: block_checksum(index_bytes(idx)) == idx.index_checksum,
        metadata_checksum_valid: sha256_of(metadata_region(d, idx)) == idx.metadata_checksum@,
        size_valid: idx.package_size == d.len(),
        integrity_seal_valid: seal_holds(idx, metadata_region(d, idx)),
        trailing_magic_valid: d.subrange(d.len() - 4, d.len() as int) == magic_wand(),
    }
}

/// Verify a package held in memory: locate and parse its index, then run the
/// five seal checks. Fails when the trailer is missing (`InvalidMagic`), the
/// metadata region lies outside the data (`InvalidSize`) or does not
/// decompress (`Decode`).
pub fn verify(data: &[u8]) -> (r: Result<(Index, SealReport), FlavorError>)
    ensures
        !trailer_ok(data@) ==> r == Err::<(Index, SealReport), FlavorError>(FlavorError::InvalidMagic),
        r is Ok ==> ({
            let (idx, rep) = r->Ok_0;
            &&& trailer_ok(data@)
            &&& index_bytes(idx) == trailer_index(data@)
            &&& idx.metadata_offset + idx.metadata_size <= data@.len()
            &&& gunzip_ok(metadata_region(data@, idx))
            &&& rep == seal_report_of(data@, idx)
        }),
        trailer_ok(data@) && r is Err ==> ({
            let idx_bytes = trailer_index(data@);
            exists|idx: Index|
                index_bytes(idx) == idx_bytes && (idx.metadata_offset + idx.metadata_size
                    > data@.len() || !gunzip_ok(metadata_region(data@, idx)))
        }),
{
    let raw = read_magic_trailer(data)?;
    let index = match Index::unpack(raw.as_slice()) {
        Ok(i) => i,
        Err(e) => {
            return Err(e);
        },
    };
    let index_checksum_valid = index.verify_checksum();
    let metadata = match read_at(data, index.metadata_offset, index.metadata_size) {
        Ok(m) => m,
        Err(e) => {
            assert(index_bytes(index) == trailer_index(data@));
            return Err(e);
        },
    };
    let digest = sha256(metadata.as_slice());
    let metadata_checksum_valid = crate::package::bytes_equal(
        digest.as_slice(),
        index.metadata_checksum.as_slice(),
    );
    let size_valid = index.package_size == data.len() as u64;
    let integrity_seal_valid = match verify_integrity_seal(metadata.as_slice(), &index) {
        Ok(v) => v,
        Err(e) => {
            assert(index_bytes(index) == trailer_index(data@));
            return Err(e);
        },
    };
    let len = data.len();
    let trailing_magic_valid = crate::codec::bytes_at_eq4(
        data,
        len - 4,
        crate::constants::MAGIC_WAND_0,
        crate::constants::MAGIC_WAND_1,
        crate::constants::MAGIC_WAND_2,
        crate::constants::MAGIC_WAND_3,
    );
    let report = SealReport {
        index_checksum_valid,
        metadata_checksum_valid,
        size_valid,
        integrity_seal_valid,
        trailing_magic_valid,
    };
    Ok((index, report))
}

} // verus!
