//! Turning a slot's stored bytes back into what extraction writes: the
//! operation chain undone from last to first, then either a tar archive to
//! unpack under the workenv or a single file at the slot's target.
use crate::constants::{DEFAULT_FILE_PERMS, OP_GZIP, OP_TAR};
use crate::crypto::{gunzip, gunzip_of, gunzip_ok, gzip_of};
use crate::error::FlavorError;
use crate::operations::{unpack_operations, unpacked_ops};
use crate::paths::{join, join_path};
use crate::slots::{descriptor_mode, SlotDescriptor};
use crate::text::{replace_all, replace_str};
use vstd::prelude::*;

verus! {

/// Bytes 257..262 hold the ustar magic.
pub open spec fn is_tar(d: Seq<u8>) -> bool {
    d.len() >= 262 && d.subrange(257, 262) == seq![0x75u8, 0x73u8, 0x74u8, 0x61u8, 0x72u8]
}

/// Whether the bytes look like a POSIX ustar archive.
pub fn is_tarball(data: &[u8]) -> (r: bool)
    ensures
        r == is_tar(data@),
{
    if data.len() < 262 {
        return false;
    }
    let r = data[257] == 0x75 && data[258] == 0x73 && data[259] == 0x74 && data[260] == 0x61
        && data[261] == 0x72;
    assert(r ==> data@.subrange(257, 262) =~= seq![0x75u8, 0x73u8, 0x74u8, 0x61u8, 0x72u8]);
    assert(data@.subrange(257, 262) == seq![0x75u8, 0x73u8, 0x74u8, 0x61u8, 0x72u8] ==> {
        &&& data@.subrange(257, 262)[0] == 0x75u8
        &&& data@.subrange(257, 262)[1] == 0x73u8
        &&& data@.subrange(257, 262)[2] == 0x74u8
        &&& data@.subrange(257, 262)[3] == 0x61u8
        &&& data@.subrange(257, 262)[4] == 0x72u8
    });
    r
}

/// What undoing an operation chain gives.
pub ghost enum ChainOutcome {
    Bytes(Seq<u8>),
    NotGzip,
    Unknown(u8),
}

/// Undo the chain `ops` on `data`, last operation first: GZIP inflates, TAR
/// passes the bytes on, any other code is unknown.
pub open spec fn decode_chain(data: Seq<u8>, ops: Seq<u8>) -> ChainOutcome
    decreases ops.len(),
{
    if ops.len() == 0 {
        ChainOutcome::Bytes(data)
    } else {
        let op = ops.last();
        if op == OP_GZIP {
            if gunzip_ok(data) {
                decode_chain(gunzip_of(data), ops.drop_last())
            } else {
                ChainOutcome::NotGzip
            }
        } else if op == OP_TAR {
            decode_chain(data, ops.drop_last())
        } else {
            ChainOutcome::Unknown(op)
        }
    }
}

/// Whether a decode result matches the outcome the chain specifies.
pub open spec fn decoded_as(r: Result<Vec<u8>, FlavorError>, o: ChainOutcome) -> bool {
    match o {
        ChainOutcome::Bytes(b) => r is Ok && r->Ok_0@ == b,
        ChainOutcome::NotGzip => r is Err && r->Err_0 is Decode,
        ChainOutcome::Unknown(op) => r == Err::<Vec<u8>, FlavorError>(FlavorError::UnknownOperation(op)),
    }
}

/// Undo a slot's packed operation chain on its stored bytes.
pub fn decode_slot(stored: Vec<u8>, operations: u64) -> (r: Result<Vec<u8>, FlavorError>)
    ensures
        decoded_as(r, decode_chain(stored@, unpacked_ops(operations))),
{
    let ops = unpack_operations(operations);
    let mut data = stored;
    let mut i: usize = ops.len();
    assert(ops@.subrange(0, ops@.len() as int) =~= ops@);
    while i > 0
        invariant
            i <= ops@.len(),
            ops@ == unpacked_ops(operations),
            decode_chain(stored@, ops@) == decode_chain(data@, ops@.subrange(0, i as int)),
        decreases i,
    {
        let op = ops[i - 1];
        let ghost pre = ops@.subrange(0, i as int);
        assert(pre.drop_last() =~= ops@.subrange(0, i - 1));
        if op == OP_GZIP {
            data = match gunzip(data.as_slice()) {
                Ok(d) => d,
                Err(e) => {
                    return Err(FlavorError::Decode(e));
                },
            };
        } else if op == OP_TAR {
        } else {
            return Err(FlavorError::UnknownOperation(op));
        }
        i = i - 1;
    }
    assert(ops@.subrange(0, 0) =~= Seq::<u8>::empty());
    Ok(data)
}

/// An empty chain passes the stored bytes through unchanged.
pub proof fn lemma_decode_empty_chain(data: Seq<u8>)
    ensures
        decode_chain(data, Seq::empty()) == ChainOutcome::Bytes(data),
{
}

/// A tar-then-gzip slot whose stored bytes are a gzip stream of an archive
/// decodes to exactly that archive.
pub proof fn lemma_decode_tgz(stored: Seq<u8>, archive: Seq<u8>)
    requires
        gunzip_ok(stored),
        gunzip_of(stored) == archive,
    ensures
        decode_chain(stored, seq![OP_TAR, OP_GZIP]) == ChainOutcome::Bytes(archive),
{
    reveal_with_fuel(decode_chain, 3);
    assert(seq![OP_TAR, OP_GZIP].drop_last() =~= seq![OP_TAR]);
    assert(seq![OP_TAR].drop_last() =~= Seq::<u8>::empty());
}

} // verus!

verus! {

/// A slot target relative to the workenv: any `{workenv}/` or `{workenv}`
/// prefix text removed, since the workenv is the extraction root.
pub open spec fn resolved_target(t: Seq<char>) -> Seq<char> {
    replace_all(replace_all(t, "{workenv}/"@, Seq::empty()), "{workenv}"@, Seq::empty())
}

/// The mode of an extracted file: the descriptor's, or 0600 when it is zero.
pub open spec fn file_mode_of(d: SlotDescriptor) -> u16 {
    if descriptor_mode(d) != 0 {
        descriptor_mode(d)
    } else {
        DEFAULT_FILE_PERMS
    }
}

pub fn file_mode(descriptor: &SlotDescriptor) -> (r: u16)
    ensures
        r == file_mode_of(*descriptor),
{
    let perms = (descriptor.permissions as u16) | ((descriptor.permissions_high as u16) << 8);
    if perms != 0 {
        perms
    } else {
        DEFAULT_FILE_PERMS
    }
}

/// What extracting one slot writes.
#[derive(Debug)]
pub enum ExtractionPlan {
    /// A ustar archive to unpack below the workenv.
    Archive { data: Vec<u8> },
    /// One file at `path` with mode `mode`.
    File { path: String, data: Vec<u8>, mode: u16 },
}

/// Decode a slot and decide what to write: a slot whose chain holds TAR is
/// an archive (and must carry the ustar magic), any other slot is one file at
/// `dest_dir` joined with its resolved target.
pub fn plan_slot_extraction(
    stored: Vec<u8>,
    descriptor: &SlotDescriptor,
    target: &str,
    dest_dir: &str,
) -> (r: Result<ExtractionPlan, FlavorError>)
    ensures
        ({
            let ops = unpacked_ops(descriptor.operations);
            match decode_chain(stored@, ops) {
                ChainOutcome::NotGzip => r is Err && r->Err_0 is Decode,
                ChainOutcome::Unknown(op) => r is Err && r->Err_0 == FlavorError::UnknownOperation(op),
                ChainOutcome::Bytes(b) => if ops.contains(OP_TAR) {
                    if is_tar(b) {
                        r is Ok && (r->Ok_0 matches ExtractionPlan::Archive { data } && data@ == b)
                    } else {
                        r is Err && r->Err_0 == FlavorError::OperationMismatch
                    }
                } else {
                    r is Ok && (r->Ok_0 matches ExtractionPlan::File { path, data, mode } && path@
                        == join(dest_dir@, resolved_target(target@)) && data@ == b && mode
                        == file_mode_of(*descriptor))
                },
            }
        }),
{
    let data = match decode_slot(stored, descriptor.operations) {
        Ok(d) => d,
        Err(e) => {
            return Err(e);
        },
    };
    let ops = unpack_operations(descriptor.operations);
    let mut has_tar = false;
    let mut i: usize = 0;
    while i < ops.len()
        invariant
            i <= ops@.len(),
            has_tar == ops@.subrange(0, i as int).contains(OP_TAR),
        decreases ops@.len() - i,
    {
        assert(ops@.subrange(0, i + 1) =~= ops@.subrange(0, i as int).push(ops@[i as int]));
        if ops[i] == OP_TAR {
            has_tar = true;
            assert(ops@.subrange(0, i + 1)[i as int] == OP_TAR);
        }
        i = i + 1;
    }
    assert(ops@.subrange(0, ops@.len() as int) =~= ops@);
    if has_tar {
        if !is_tarball(data.as_slice()) {
            return Err(FlavorError::OperationMismatch);
        }
        Ok(ExtractionPlan::Archive { data })
    } else {
        proof {
            reveal_strlit("{workenv}/");
            reveal_strlit("{workenv}");
            reveal_strlit("");
            assert(""@ =~= Seq::<char>::empty());
        }
        let t1 = replace_str(target, "{workenv}/", "");
        let t2 = replace_str(t1.as_str(), "{workenv}", "");
        let path = join_path(dest_dir, t2.as_str());
        Ok(ExtractionPlan::File { path, data, mode: file_mode(descriptor) })
    }
}

} // verus!
