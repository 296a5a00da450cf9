//! Ed25519 signing and verification and gzip, behind the outside crates that
//! implement them. Keys are carried as their 32 raw bytes.
use vstd::prelude::*;

verus! {

/// Whether `signature` is a valid Ed25519 signature of `message` under the
/// public key `public_key` (false for bytes that are no valid key).
pub uninterp spec fn ed25519_verifies(public_key: Seq<u8>, message: Seq<u8>, signature: Seq<u8>) -> bool;

/// The Ed25519 public key of a 32-byte secret key.
pub uninterp spec fn ed25519_public_of(secret: Seq<u8>) -> Seq<u8>;

/// The Ed25519 signature of `message` under a 32-byte secret key.
pub uninterp spec fn ed25519_signature_of(secret: Seq<u8>, message: Seq<u8>) -> Seq<u8>;

/// Whether `data` is a complete gzip stream.
pub uninterp spec fn gunzip_ok(data: Seq<u8>) -> bool;

/// The bytes a complete gzip stream decompresses to.
pub uninterp spec fn gunzip_of(data: Seq<u8>) -> Seq<u8>;

/// The gzip stream (default level) that compresses `data`.
pub uninterp spec fn gzip_of(data: Seq<u8>) -> Seq<u8>;

/// Relies on `ed25519_dalek::VerifyingKey::from_bytes` and `Verifier::verify`:
/// true exactly when the key decodes and the signature verifies.
#[verifier::external_body]
pub fn verify_signature(data: &[u8], signature: &[u8; 64], public_key: &[u8; 32]) -> (r: bool)
    ensures
        r == ed25519_verifies(public_key@, data@, signature@),
{
    let sig = ed25519_dalek::Signature::from_bytes(signature);
    match ed25519_dalek::VerifyingKey::from_bytes(public_key) {
        Ok(key) => ed25519_dalek::Verifier::verify(&key, data, &sig).is_ok(),
        Err(_) => false,
    }
}

/// Relies on `ed25519_dalek::SigningKey::verifying_key`: the public key of a secret key.
#[verifier::external_body]
pub(crate) fn public_key_of(secret: &[u8; 32]) -> (r: [u8; 32])
    ensures
        r@ == ed25519_public_of(secret@),
{
    ed25519_dalek::SigningKey::from_bytes(secret).verifying_key().to_bytes()
}

/// Relies on `ed25519_dalek::Signer::sign`: the signature of `data`, which
/// verifies under the key's public key.
#[verifier::external_body]
pub fn sign_data(data: &[u8], secret: &[u8; 32]) -> (r: [u8; 64])
    ensures
        r@ == ed25519_signature_of(secret@, data@),
        ed25519_verifies(ed25519_public_of(secret@), data@, r@),
{
    let key = ed25519_dalek::SigningKey::from_bytes(secret);
    ed25519_dalek::Signer::sign(&key, data).to_bytes()
}

/// Relies on `flate2::read::GzDecoder`: the decompressed bytes of a complete
/// gzip stream, or the decoder's error message.
#[verifier::external_body]
pub(crate) fn gunzip(data: &[u8]) -> (r: Result<Vec<u8>, String>)
    ensures
        r is Ok <==> gunzip_ok(data@),
        r is Ok ==> r->Ok_0@ == gunzip_of(data@),
{
    let mut out = Vec::new();
    match std::io::Read::read_to_end(&mut flate2::read::GzDecoder::new(data), &mut out) {
        Ok(_) => Ok(out),
        Err(e) => Err(e.to_string()),
    }
}

/// Relies on `flate2::write::GzEncoder` at the default level: a gzip stream
/// that decompresses to `data`.
#[verifier::external_body]
pub(crate) fn gzip(data: &[u8]) -> (r: Vec<u8>)
    ensures
        r@ == gzip_of(data@),
        gunzip_ok(r@),
        gunzip_of(r@) == data@,
{
    let mut enc = flate2::write::GzEncoder::new(Vec::new(), flate2::Compression::default());
    std::io::Write::write_all(&mut enc, data).unwrap();
    enc.finish().unwrap()
}

/// The secret key of a deterministic build: the SHA-256 of the seed's bytes.
pub fn generate_keys_from_seed(seed: &str) -> (r: ([u8; 32], [u8; 32]))
    ensures
        r.0@ == crate::codec::sha256_of(vstd::string::StringSliceAdditionalSpecFns::spec_bytes(seed)),
        r.1@ == ed25519_public_of(r.0@),
{
    let digest = crate::codec::sha256(seed.as_bytes());
    let secret: [u8; 32] = crate::codec::read_array(digest.as_slice(), 0);
    assert(digest@.subrange(0, 32) =~= digest@);
    let public = public_key_of(&secret);
    (secret, public)
}

} // verus!
