//! Operation chains: up to eight 8-bit operation codes packed little-endian
//! into a `u64`.
use vstd::bytes::*;
use vstd::prelude::*;

verus! {

/// The eight bytes that `pack_operations` encodes: the first eight codes,
/// then zeros.
pub open spec fn padded_ops(ops: Seq<u8>) -> Seq<u8> {
    Seq::new(8, |i: int| if i < ops.len() { ops[i] } else { 0u8 })
}

/// The packed form of an operation list (codes past the eighth are dropped).
pub open spec fn packed_ops(ops: Seq<u8>) -> u64 {
    spec_u64_from_le_bytes(padded_ops(ops))
}

/// The codes of `s` up to (not including) its first zero: `OP_NONE` ends a chain.
pub open spec fn chain_prefix(s: Seq<u8>) -> Seq<u8>
    decreases s.len(),
{
    if s.len() == 0 || s[0] == 0 {
        Seq::empty()
    } else {
        seq![s[0]] + chain_prefix(s.drop_first())
    }
}

/// The codes of a packed chain, in execution order, up to the first zero byte.
pub open spec fn unpacked_ops(packed: u64) -> Seq<u8> {
    chain_prefix(spec_u64_to_le_bytes(packed))
}

/// Pack an operation list into a `u64`, one byte per code, first code in the
/// lowest byte. Codes past the eighth are dropped.
pub fn pack_operations(operations: &[u8]) -> (packed: u64)
    ensures
        packed == packed_ops(operations@),
{
    let mut bytes: Vec<u8> = Vec::new();
    let mut i: usize = 0;
    while i < 8
        invariant
            i <= 8,
            bytes@ == padded_ops(operations@).subrange(0, i as int),
        decreases 8 - i,
    {
        if i < operations.len() {
            bytes.push(operations[i]);
        } else {
            bytes.push(0);
        }
        i = i + 1;
    }
    assert(bytes@ == padded_ops(operations@));
    u64_from_le_bytes(bytes.as_slice())
}

/// Unpack a chain: the bytes from the lowest up, until the first zero.
pub fn unpack_operations(packed: u64) -> (operations: Vec<u8>)
    ensures
        operations@ == unpacked_ops(packed),
{
    let bytes = u64_to_le_bytes(packed);
    let mut operations: Vec<u8> = Vec::new();
    let mut i: usize = 0;
    assert(bytes@.subrange(0, 8) =~= bytes@);
    assert(operations@ + chain_prefix(bytes@.subrange(0, 8)) =~= chain_prefix(bytes@));
    while i < 8
        invariant
            i <= 8,
            bytes@.len() == 8,
            bytes@ == spec_u64_to_le_bytes(packed),
            operations@ + chain_prefix(bytes@.subrange(i as int, 8)) == chain_prefix(bytes@),
        decreases 8 - i,
    {
        let op = bytes[i];
        let ghost rest = bytes@.subrange(i as int, 8);
        assert(rest.drop_first() =~= bytes@.subrange(i + 1, 8));
        if op == 0 {
            assert(operations@ + Seq::<u8>::empty() =~= operations@);
            return operations;
        }
        let ghost before = operations@;
        operations.push(op);
        assert(operations@ + chain_prefix(bytes@.subrange(i + 1, 8)) =~= before + (seq![op] + chain_prefix(rest.drop_first())));
        i = i + 1;
    }
    assert(bytes@.subrange(8, 8) =~= Seq::<u8>::empty());
    assert(operations@ + Seq::<u8>::empty() =~= operations@);
    operations
}

/// A chain followed by a zero (or by nothing) is read back whole.
pub proof fn lemma_chain_prefix_stops(v: Seq<u8>, rest: Seq<u8>)
    requires
        forall|i: int| 0 <= i < v.len() ==> v[i] != 0,
        rest.len() == 0 || rest[0] == 0,
    ensures
        chain_prefix(v + rest) == v,
    decreases v.len(),
{
    if v.len() == 0 {
        assert(v + rest =~= rest);
    } else {
        assert((v + rest).drop_first() =~= v.drop_first() + rest);
        lemma_chain_prefix_stops(v.drop_first(), rest);
        assert(seq![v[0]] + v.drop_first() =~= v);
    }
}

/// Unpacking a packed chain of at most eight non-zero codes gives it back;
/// a longer chain gives back its first eight codes.
pub proof fn lemma_pack_unpack_round_trip(ops: Seq<u8>)
    requires
        forall|i: int| 0 <= i < ops.len() ==> ops[i] != 0,
    ensures
        ops.len() <= 8 ==> unpacked_ops(packed_ops(ops)) == ops,
        ops.len() > 8 ==> unpacked_ops(packed_ops(ops)) == ops.subrange(0, 8),
{
    lemma_auto_spec_u64_to_from_le_bytes();
    let p = padded_ops(ops);
    assert(spec_u64_to_le_bytes(spec_u64_from_le_bytes(p)) == p);
    if ops.len() <= 8 {
        let k = (8 - ops.len()) as nat;
        let zeros = Seq::new(k, |i: int| 0u8);
        assert(p =~= ops + zeros);
        lemma_chain_prefix_stops(ops, zeros);
    } else {
        let v = ops.subrange(0, 8);
        assert(p =~= v + Seq::<u8>::empty());
        lemma_chain_prefix_stops(v, Seq::<u8>::empty());
    }
}

} // verus!
