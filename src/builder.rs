//! Building a package: slot descriptors from the manifest and the stored
//! bytes, then the signed and compressed metadata, then the layout.
use crate::checksums::{hex_encode, hex_of};
use crate::codec::{read_array, sha256, sha256_of};
use crate::crypto::{
    ed25519_public_of, ed25519_signature_of, ed25519_verifies, gunzip_of, gunzip_ok, gzip,
    gzip_of, public_key_of, sign_data,
};
use crate::error::FlavorError;
use crate::index::{index_bytes, Index};
use crate::metadata::{ManifestSlot, SlotMetadata};
use crate::package::{assemble_package, package_layout, payload_budget, BuiltPackage};
use crate::seal::{seal_holds, seal_report_of, SealReport};
use crate::pe_utils::launcher_for_pspf;
use crate::slot_processor::{create_slot_descriptor, is_self_referential};
use crate::slots::{hash_prefix_u64, SlotDescriptor};
use vstd::bytes::*;
use vstd::prelude::*;

verus! {

/// The slots of a manifest, ready to be laid out.
pub struct ProcessedSlots {
    pub descriptors: Vec<SlotDescriptor>,
    /// `sha256:<hex>` of each slot's stored bytes (empty for a self-referential slot).
    pub checksums: Vec<String>,
    pub self_ref: Vec<bool>,
}

/// The descriptor of a self-referential slot: its id and nothing else.
pub open spec fn self_ref_descriptor(i: u64) -> SlotDescriptor {
    SlotDescriptor {
        id: i,
        name_hash: 0,
        offset: 0,
        size: 0,
        original_size: 0,
        operations: 0,
        checksum: 0,
        purpose: 0,
        lifecycle: 0,
        priority: 0,
        platform: 0,
        reserved1: 0,
        reserved2: 0,
        permissions: 0,
        permissions_high: 0,
    }
}

/// Describe each manifest slot: a self-referential one (`$SELF`) gets an
/// empty descriptor; any other one a descriptor of its stored bytes, whose
/// checksum is the first eight SHA-256 bytes of those bytes. A slot that
/// declares a position other than its own is a manifest error.
pub fn process_slots(slots: &Vec<ManifestSlot>, payloads: &Vec<Vec<u8>>) -> (r: Result<ProcessedSlots, FlavorError>)
    requires
        payloads@.len() == slots@.len(),
    ensures
        r is Err <==> exists|i: int|
            0 <= i < slots@.len() && (#[trigger] slots@[i]).slot is Some && slots@[i].slot->Some_0 != i,
        r is Ok ==> ({
            let p = r->Ok_0;
            &&& p.descriptors@.len() == slots@.len()
            &&& p.self_ref@.len() == slots@.len()
            &&& p.checksums@.len() == slots@.len()
            &&& forall|i: int|
                0 <= i < slots@.len() ==> (#[trigger] p.self_ref@[i] == (slots@[i].source@ == "$SELF"@))
                    && (p.self_ref@[i] ==> p.descriptors@[i] == self_ref_descriptor(i as u64)) && (
                !p.self_ref@[i] ==> {
                    &&& p.descriptors@[i].id == i
                    &&& p.descriptors@[i].size == payloads@[i]@.len()
                    &&& p.descriptors@[i].checksum == spec_u64_from_le_bytes(
                        sha256_of(payloads@[i]@).subrange(0, 8),
                    )
                    &&& p.checksums@[i]@ == "sha256:"@ + hex_of(sha256_of(payloads@[i]@))
                })
        }),
{
    let n = slots.len();
    let mut descriptors: Vec<SlotDescriptor> = Vec::new();
    let mut checksums: Vec<String> = Vec::new();
    let mut self_ref: Vec<bool> = Vec::new();
    let mut i: usize = 0;
    while i < n
        invariant
            n == slots@.len(),
            payloads@.len() == n,
            i <= n,
            descriptors@.len() == i,
            checksums@.len() == i,
            self_ref@.len() == i,
            forall|k: int| 0 <= k < i ==> !((#[trigger] slots@[k]).slot is Some && slots@[k].slot->Some_0 != k),
            forall|k: int|
                0 <= k < i ==> (#[trigger] self_ref@[k] == (slots@[k].source@ == "$SELF"@)) && (
                self_ref@[k] ==> descriptors@[k] == self_ref_descriptor(k as u64)) && (!self_ref@[k]
                    ==> {
                    &&& descriptors@[k].id == k
                    &&& descriptors@[k].size == payloads@[k]@.len()
                    &&& descriptors@[k].checksum == spec_u64_from_le_bytes(
                        sha256_of(payloads@[k]@).subrange(0, 8),
                    )
                    &&& checksums@[k]@ == "sha256:"@ + hex_of(sha256_of(payloads@[k]@))
                }),
        decreases n - i,
    {
        let slot = &slots[i];
        match slot.slot {
            Some(declared) => {
                if declared < 0 || declared as u64 != i as u64 {
                    return Err(FlavorError::Manifest("slot position mismatch".to_string()));
                }
            },
            None => {},
        }
        if is_self_referential(slot.source.as_str()) {
            descriptors.push(SlotDescriptor {
                id: i as u64,
                name_hash: 0,
                offset: 0,
                size: 0,
                original_size: 0,
                operations: 0,
                checksum: 0,
                purpose: 0,
                lifecycle: 0,
                priority: 0,
                platform: 0,
                reserved1: 0,
                reserved2: 0,
                permissions: 0,
                permissions_high: 0,
            });
            checksums.push(String::new());
            self_ref.push(true);
        } else {
            let payload = &payloads[i];
            let digest = sha256(payload.as_slice());
            let checksum = u64_from_le_bytes(vstd::slice::slice_subrange(digest.as_slice(), 0, 8));
            let mut text = String::from_str("sha256:");
            text.append(hex_encode(digest.as_slice()).as_str());
            descriptors.push(create_slot_descriptor(i as u64, slot, payload.len() as u64, checksum));
            checksums.push(text);
            self_ref.push(false);
        }
        i = i + 1;
    }
    Ok(ProcessedSlots { descriptors, checksums, self_ref })
}

/// The integrity fields a build puts into the index for metadata `json`
/// signed with `secret`.
pub open spec fn sealed_base(base: Index, json: Seq<u8>, secret: Seq<u8>) -> bool {
    &&& base.public_key@ == ed25519_public_of(secret)
    &&& base.metadata_checksum@ == sha256_of(gzip_of(json))
    &&& base.integrity_signature@.subrange(0, 64) == ed25519_signature_of(secret, json)
}

/// The base index of a build: a fresh index carrying the public key of
/// `secret`, the SHA-256 of the compressed metadata and the signature of the
/// metadata in the first 64 bytes of its signature field.
pub open spec fn build_base(base: Index, json: Seq<u8>, secret: Seq<u8>) -> bool {
    let z = |n: int| crate::package::zeros(n);
    &&& sealed_base(base, json, secret)
    &&& base.integrity_signature@.subrange(64, 512) == z(448)
    &&& base.format_version == crate::constants::PSPF_VERSION
    &&& base.compatibility == crate::constants::PSPF_VERSION
    &&& base.protocol_version == 1 && base.page_size == 4096
    &&& base.index_checksum == 0 && base.package_size == 0 && base.launcher_size == 0
    &&& base.metadata_offset == 0 && base.metadata_size == 0
    &&& base.slot_table_offset == 0 && base.slot_table_size == 0
    &&& base.slot_count == 0 && base.flags == 0
    &&& base.access_mode == 0 && base.cache_strategy == 0 && base.encryption_type == 0
    &&& base.reserved_hint == 0
    &&& base.max_memory == 0 && base.min_memory == 0 && base.cpu_features == 0
    &&& base.gpu_requirements == 0 && base.numa_hints == 0 && base.stream_chunk_size == 0
    &&& base.build_timestamp == 0
    &&& base.capabilities == 0 && base.requirements == 0 && base.extensions == 0
    &&& base.padding1@ == z(12) && base.build_machine@ == z(32) && base.source_hash@ == z(32)
    &&& base.dependency_hash@ == z(32) && base.license_id@ == z(16) && base.provenance_uri@ == z(8)
    &&& base.future_crypto@ == z(512) && base.reserved@ == z(6816)
}

/// `d` (with index `idx` and slot table `placed`) is what a build of these
/// inputs lays out.
pub open spec fn built_package(
    launcher: Seq<u8>,
    json: Seq<u8>,
    secret: Seq<u8>,
    payloads: Seq<Vec<u8>>,
    descriptors: Seq<SlotDescriptor>,
    self_ref: Seq<bool>,
    d: Seq<u8>,
    idx: Index,
    placed: Seq<SlotDescriptor>,
) -> bool {
    exists|base: Index|
        build_base(base, json, secret) && package_layout(
            launcher_for_pspf(launcher)->Some_0,
            gzip_of(json),
            payloads,
            descriptors,
            self_ref,
            base,
            d,
            idx,
            placed,
        )
}

/// Building twice from the same launcher, metadata, slots and key gives the
/// same bytes.
pub proof fn lemma_build_deterministic(
    launcher: Seq<u8>,
    json: Seq<u8>,
    secret: Seq<u8>,
    payloads: Seq<Vec<u8>>,
    descriptors: Seq<SlotDescriptor>,
    self_ref: Seq<bool>,
    d1: Seq<u8>,
    idx1: Index,
    placed1: Seq<SlotDescriptor>,
    d2: Seq<u8>,
    idx2: Index,
    placed2: Seq<SlotDescriptor>,
)
    requires
        built_package(launcher, json, secret, payloads, descriptors, self_ref, d1, idx1, placed1),
        built_package(launcher, json, secret, payloads, descriptors, self_ref, d2, idx2, placed2),
    ensures
        d1 == d2,
        idx1 == idx2,
{
    broadcast use vstd::array::axiom_array_ext_equal;
    let b1 = choose|base: Index|
        build_base(base, json, secret) && package_layout(
            launcher_for_pspf(launcher)->Some_0,
            gzip_of(json),
            payloads,
            descriptors,
            self_ref,
            base,
            d1,
            idx1,
            placed1,
        );
    let b2 = choose|base: Index|
        build_base(base, json, secret) && package_layout(
            launcher_for_pspf(launcher)->Some_0,
            gzip_of(json),
            payloads,
            descriptors,
            self_ref,
            base,
            d2,
            idx2,
            placed2,
        );
    assert(b1.integrity_signature@ =~= b1.integrity_signature@.subrange(0, 64) + b1.integrity_signature@.subrange(64, 512));
    assert(b2.integrity_signature@ =~= b2.integrity_signature@.subrange(0, 64) + b2.integrity_signature@.subrange(64, 512));
    assert(b1.public_key =~= b2.public_key);
    assert(b1.metadata_checksum =~= b2.metadata_checksum);
    assert(b1.integrity_signature =~= b2.integrity_signature);
    assert(b1.padding1 =~= b2.padding1);
    assert(b1.build_machine =~= b2.build_machine);
    assert(b1.source_hash =~= b2.source_hash);
    assert(b1.dependency_hash =~= b2.dependency_hash);
    assert(b1.license_id =~= b2.license_id);
    assert(b1.provenance_uri =~= b2.provenance_uri);
    assert(b1.future_crypto =~= b2.future_crypto);
    assert(b1.reserved =~= b2.reserved);
    assert(b1 == b2);
    crate::package::lemma_layout_deterministic(
        launcher_for_pspf(launcher)->Some_0,
        gzip_of(json),
        payloads,
        descriptors,
        self_ref,
        b1,
        d1,
        idx1,
        placed1,
        d2,
        idx2,
        placed2,
    );
}

/// Room a package needs besides its metadata.
fn layout_budget(launcher_len: usize, slot_count: usize, payloads: &Vec<Vec<u8>>) -> (r: Option<usize>)
    ensures
        r is Some <==> launcher_len + 8192 + 7 + 64 * slot_count + payload_budget(payloads@, payloads@.len() as int) + 8200 <= usize::MAX,
        r is Some ==> r->Some_0 == launcher_len + 8192 + 7 + 64 * slot_count + payload_budget(payloads@, payloads@.len() as int) + 8200,
{
    let mut total: u128 = launcher_len as u128 + 8192 + 7 + 64 * (slot_count as u128) + 8200;
    let mut i: usize = 0;
    while i < payloads.len()
        invariant
            i <= payloads@.len(),
            total == launcher_len + 8192 + 7 + 64 * slot_count + payload_budget(payloads@, i as int) + 8200,
        decreases payloads@.len() - i,
    {
        if total > usize::MAX as u128 {
            proof {
                lemma_budget_grows(payloads@, i as int, payloads@.len() as int);
            }
            return None;
        }
        total = total + 7 + payloads[i].len() as u128;
        i = i + 1;
    }
    if total > usize::MAX as u128 {
        return None;
    }
    Some(total as usize)
}

proof fn lemma_budget_grows(p: Seq<Vec<u8>>, i: int, j: int)
    requires
        0 <= i <= j <= p.len(),
    ensures
        payload_budget(p, i) <= payload_budget(p, j),
    decreases j - i,
{
    if i < j {
        lemma_budget_grows(p, i, j - 1);
    }
}

/// The five seal checks all passing.
pub open spec fn all_checks_pass() -> SealReport {
    SealReport {
        index_checksum_valid: true,
        metadata_checksum_valid: true,
        size_valid: true,
        integrity_seal_valid: true,
        trailing_magic_valid: true,
    }
}

/// Prepare the launcher (see `launcher_for_pspf`), sign the metadata JSON
/// with `secret`, compress it, and lay the package out. Fails with the
/// launcher's `InvalidPe` when a Rust launcher cannot be expanded, and with
/// `InvalidSize` exactly when the package would not fit in memory. A built
/// package passes all five seal checks unless its key or signature is all
/// zero bytes.
pub fn seal_and_assemble(
    launcher: Vec<u8>,
    metadata_json: &[u8],
    slots: &ProcessedSlots,
    payloads: &Vec<Vec<u8>>,
    secret: &[u8; 32],
) -> (r: Result<BuiltPackage, FlavorError>)
    requires
        payloads@.len() == slots.descriptors@.len(),
        slots.self_ref@.len() == slots.descriptors@.len(),
        slots.descriptors@.len() <= u32::MAX,
    ensures
        ({
            let pl = launcher_for_pspf(launcher@);
            let gz = gzip_of(metadata_json@);
            let n = slots.descriptors@.len();
            &&& pl is None ==> r is Err && r->Err_0 is InvalidPe
            &&& pl is Some ==> (r is Ok <==> pl->Some_0.len() + 8192 + gz.len() + 7 + 64 * n
                + payload_budget(payloads@, n as int) + 8200 <= usize::MAX)
            &&& pl is Some && r is Err ==> r == Err::<BuiltPackage, FlavorError>(FlavorError::InvalidSize)
            &&& r is Ok ==> built_package(
                launcher@,
                metadata_json@,
                secret@,
                payloads@,
                slots.descriptors@,
                slots.self_ref@,
                r->Ok_0.bytes@,
                r->Ok_0.index,
                r->Ok_0.descriptors@,
            )
            &&& r is Ok ==> gunzip_ok(gz) && gunzip_of(gz) == metadata_json@
            &&& r is Ok ==> ed25519_verifies(
                ed25519_public_of(secret@),
                metadata_json@,
                ed25519_signature_of(secret@, metadata_json@),
            )
            &&& r is Ok && !(forall|i: int| 0 <= i < 512 ==> r->Ok_0.index.integrity_signature@[i] == 0)
                && !(forall|i: int| 0 <= i < 32 ==> r->Ok_0.index.public_key@[i] == 0)
                ==> seal_report_of(r->Ok_0.bytes@, r->Ok_0.index) == all_checks_pass()
        }),
{
    let launcher = match crate::pe_utils::process_launcher_for_pspf(launcher) {
        Ok(l) => l,
        Err(e) => {
            return Err(e);
        },
    };
    let signature = sign_data(metadata_json, secret);
    let public_key = public_key_of(secret);
    let compressed = gzip(metadata_json);
    let digest = sha256(compressed.as_slice());
    let mut sig_field = [0u8; 512];
    proof {
        broadcast use vstd::array::axiom_spec_array_fill_for_copy_type;
    }
    assert(forall|j: int| 0 <= j < 512 ==> sig_field@[j] == 0u8);
    let mut k: usize = 0;
    while k < 64
        invariant
            k <= 64,
            sig_field@.len() == 512,
            forall|j: int| 0 <= j < k ==> sig_field@[j] == signature@[j],
            forall|j: int| k <= j < 512 ==> sig_field@[j] == 0u8,
        decreases 64 - k,
    {
        sig_field[k] = signature[k];
        k = k + 1;
    }
    let mut base = Index::new();
    base.public_key = public_key;
    base.metadata_checksum = read_array(digest.as_slice(), 0);
    base.integrity_signature = sig_field;
    assert(base.integrity_signature@.subrange(0, 64) =~= signature@);
    assert(base.integrity_signature@.subrange(64, 512) =~= crate::package::zeros(448));
    assert(digest@.subrange(0, 32) =~= digest@);
    let n = slots.descriptors.len();
    let room = match layout_budget(launcher.len(), n, payloads) {
        Some(b) => b,
        None => {
            return Err(FlavorError::InvalidSize);
        },
    };
    if compressed.len() > usize::MAX - room {
        return Err(FlavorError::InvalidSize);
    }
    let ghost b = base;
    let ghost pl = launcher@;
    let built = assemble_package(
        launcher.as_slice(),
        compressed.as_slice(),
        payloads,
        &slots.descriptors,
        &slots.self_ref,
        base,
    );
    assert(sealed_base(b, metadata_json@, secret@));
    assert(build_base(b, metadata_json@, secret@));
    proof {
        let d = built.bytes@;
        let idx = built.index;
        if !(forall|i: int| 0 <= i < 512 ==> idx.integrity_signature@[i] == 0) && !(forall|i: int|
            0 <= i < 32 ==> idx.public_key@[i] == 0) {
            assert(idx.integrity_signature@ == b.integrity_signature@);
            assert(idx.public_key@ == b.public_key@);
            lemma_built_package_verifies(
                pl,
                metadata_json@,
                secret@,
                payloads@,
                slots.descriptors@,
                slots.self_ref@,
                b,
                d,
                idx,
                built.descriptors@,
                idx,
            );
        }
    }
    Ok(built)
}

/// A package built from metadata `json` signed with `secret` passes all five
/// seal checks, read through any index with its index bytes (so through the
/// one `verify` parses), provided the key and signature are not all zero.
pub proof fn lemma_built_package_verifies(
    launcher: Seq<u8>,
    json: Seq<u8>,
    secret: Seq<u8>,
    payloads: Seq<Vec<u8>>,
    descriptors: Seq<SlotDescriptor>,
    self_ref: Seq<bool>,
    base: Index,
    d: Seq<u8>,
    idx: Index,
    placed: Seq<SlotDescriptor>,
    read: Index,
)
    requires
        sealed_base(base, json, secret),
        package_layout(launcher, gzip_of(json), payloads, descriptors, self_ref, base, d, idx, placed),
        gunzip_of(gzip_of(json)) == json,
        ed25519_verifies(ed25519_public_of(secret), json, ed25519_signature_of(secret, json)),
        !(forall|i: int| 0 <= i < 512 ==> base.integrity_signature@[i] == 0),
        !(forall|i: int| 0 <= i < 32 ==> base.public_key@[i] == 0),
        index_bytes(read) == index_bytes(idx),
    ensures
        seal_report_of(d, read) == (SealReport {
            index_checksum_valid: true,
            metadata_checksum_valid: true,
            size_valid: true,
            integrity_seal_valid: true,
            trailing_magic_valid: true,
        }),
{
    crate::index::lemma_index_fields_agree(read, idx);
    crate::index::lemma_index_fields(idx);
    crate::package::lemma_layout_trailer(launcher, gzip_of(json), payloads, descriptors, self_ref, base, d, idx, placed);
    lemma_auto_spec_u32_to_from_le_bytes();
    assert(spec_u32_from_le_bytes(spec_u32_to_le_bytes(idx.index_checksum)) == idx.index_checksum);
    let m = gzip_of(json);
    assert(crate::seal::metadata_region(d, read) == m);
    assert(read.integrity_signature@ == base.integrity_signature@);
    assert(read.public_key@ == base.public_key@);
    assert(seal_holds(read, m));
}

} // verus!

verus! {

/// Whether to embed the payload as a PE resource instead of appending it:
/// never, the overlay is always used.
pub fn should_use_resource_embedding(launcher_data: &[u8]) -> (r: Result<bool, FlavorError>)
    ensures
        r == Ok::<bool, FlavorError>(false),
{
    Ok(false)
}

} // verus!

verus! {

/// The metadata record of each slot: its position, its manifest fields, the
/// size and `sha256:` checksum of its stored bytes, default permissions
/// "0600" and resolution "build"; a self-referential slot records no
/// operations and `self_ref: true`.
pub fn slot_metadata(slots: &Vec<ManifestSlot>, p: &ProcessedSlots) -> (r: Vec<SlotMetadata>)
    requires
        p.descriptors@.len() == slots@.len(),
        p.checksums@.len() == slots@.len(),
        p.self_ref@.len() == slots@.len(),
    ensures
        r@.len() == slots@.len(),
        forall|i: int|
            0 <= i < slots@.len() ==> {
                let m = #[trigger] r@[i];
                let s = slots@[i];
                &&& m.index == i
                &&& m.id@ == s.id@
                &&& m.source@ == s.source@
                &&& m.target@ == s.target@
                &&& m.size == p.descriptors@[i].size as i64
                &&& m.checksum@ == p.checksums@[i]@
                &&& m.operations@ == (if p.self_ref@[i] { Seq::<char>::empty() } else { s.operations@ })
                &&& m.purpose@ == s.purpose@
                &&& m.lifecycle@ == s.lifecycle@
                &&& m.permissions is Some && m.permissions->Some_0@ == match s.permissions {
                    Some(x) => x@,
                    None => "0600"@,
                }
                &&& m.resolution is Some && m.resolution->Some_0@ == match s.resolution {
                    Some(x) => x@,
                    None => "build"@,
                }
                &&& m.self_ref == (if p.self_ref@[i] { Some(true) } else { None::<bool> })
            },
{
    let mut out: Vec<SlotMetadata> = Vec::new();
    let mut i: usize = 0;
    while i < slots.len()
        invariant
            p.descriptors@.len() == slots@.len(),
            p.checksums@.len() == slots@.len(),
            p.self_ref@.len() == slots@.len(),
            i <= slots@.len(),
            out@.len() == i,
            forall|k: int|
                0 <= k < i ==> {
                    let m = #[trigger] out@[k];
                    let s = slots@[k];
                    &&& m.index == k
                    &&& m.id@ == s.id@
                    &&& m.source@ == s.source@
                    &&& m.target@ == s.target@
                    &&& m.size == p.descriptors@[k].size as i64
                    &&& m.checksum@ == p.checksums@[k]@
                    &&& m.operations@ == (if p.self_ref@[k] { Seq::<char>::empty() } else { s.operations@ })
                    &&& m.purpose@ == s.purpose@
                    &&& m.lifecycle@ == s.lifecycle@
                    &&& m.permissions is Some && m.permissions->Some_0@ == match s.permissions {
                        Some(x) => x@,
                        None => "0600"@,
                    }
                    &&& m.resolution is Some && m.resolution->Some_0@ == match s.resolution {
                        Some(x) => x@,
                        None => "build"@,
                    }
                    &&& m.self_ref == (if p.self_ref@[k] { Some(true) } else { None::<bool> })
                },
        decreases slots@.len() - i,
    {
        let s = &slots[i];
        let is_self = p.self_ref[i];
        let permissions = match &s.permissions {
            Some(x) => x.clone(),
            None => String::from_str("0600"),
        };
        let resolution = match &s.resolution {
            Some(x) => x.clone(),
            None => String::from_str("build"),
        };
        out.push(SlotMetadata {
            index: i,
            id: s.id.clone(),
            source: s.source.clone(),
            target: s.target.clone(),
            size: p.descriptors[i].size as i64,
            checksum: p.checksums[i].clone(),
            operations: if is_self { String::new() } else { s.operations.clone() },
            purpose: s.purpose.clone(),
            lifecycle: s.lifecycle.clone(),
            permissions: Some(permissions),
            resolution: Some(resolution),
            self_ref: if is_self { Some(true) } else { None },
        });
        i = i + 1;
    }
    out
}

} // verus!
