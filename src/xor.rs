//! Repeating-key XOR over bytes; applying it twice with one key gives the
//! input back.
use vstd::prelude::*;

verus! {

/// The default key: the first eight digits of pi.
pub open spec fn default_key() -> Seq<u8> {
    seq![3u8, 1, 4, 1, 5, 9, 2, 6]
}

pub fn xor_key() -> (r: Vec<u8>)
    ensures
        r@ == default_key(),
{
    let r = vec![3u8, 1, 4, 1, 5, 9, 2, 6];
    assert(r@ =~= default_key());
    r
}

/// `data` with byte `i` XORed with `key[i % key.len()]`.
pub open spec fn xor_with(data: Seq<u8>, key: Seq<u8>) -> Seq<u8>
    recommends
        key.len() > 0,
{
    Seq::new(data.len(), |i: int| data[i] ^ key[i % (key.len() as int)])
}

/// The key that an empty key stands for.
pub open spec fn effective_key(key: Seq<u8>) -> Seq<u8> {
    if key.len() == 0 {
        default_key()
    } else {
        key
    }
}

/// XOR `data` with `key` repeated; an empty key means the default key.
pub fn xor_encode(data: &[u8], key: &[u8]) -> (r: Vec<u8>)
    ensures
        r@ == xor_with(data@, effective_key(key@)),
{
    let dk = xor_key();
    let k: &[u8] = if key.len() == 0 { dk.as_slice() } else { key };
    let klen = k.len();
    let mut out: Vec<u8> = Vec::new();
    let mut i: usize = 0;
    while i < data.len()
        invariant
            k@ == effective_key(key@),
            klen == k@.len(),
            klen > 0,
            i <= data@.len(),
            out@.len() == i,
            forall|j: int| 0 <= j < i ==> out@[j] == data@[j] ^ k@[j % (klen as int)],
        decreases data@.len() - i,
    {
        out.push(data[i] ^ k[i % klen]);
        i = i + 1;
    }
    assert(out@ =~= xor_with(data@, effective_key(key@)));
    out
}

/// The inverse of `xor_encode` with the same key.
pub fn xor_decode(data: &[u8], key: &[u8]) -> (r: Vec<u8>)
    ensures
        r@ == xor_with(data@, effective_key(key@)),
{
    xor_encode(data, key)
}

pub fn xor_encode_default(data: &[u8]) -> (r: Vec<u8>)
    ensures
        r@ == xor_with(data@, default_key()),
{
    let k = xor_key();
    xor_encode(data, k.as_slice())
}

pub fn xor_decode_default(data: &[u8]) -> (r: Vec<u8>)
    ensures
        r@ == xor_with(data@, default_key()),
{
    let k = xor_key();
    xor_encode(data, k.as_slice())
}

/// The first `N` bytes of `data` XORed with `key`, zero-filled past its end.
pub fn xor_const<const N: usize>(data: &[u8], key: &[u8]) -> (r: [u8; N])
    requires
        key@.len() > 0,
    ensures
        forall|i: int|
            0 <= i < N ==> r@[i] == if i < data@.len() {
                data@[i] ^ key@[i % (key@.len() as int)]
            } else {
                0u8
            },
{
    let mut result = [0u8; N];
    proof {
        broadcast use vstd::array::axiom_spec_array_fill_for_copy_type;
    }
    assert(forall|j: int| 0 <= j < N ==> result@[j] == 0u8);
    let klen = key.len();
    let mut i: usize = 0;
    while i < N && i < data.len()
        invariant
            klen == key@.len(),
            klen > 0,
            i <= N,
            i <= data@.len(),
            result@.len() == N,
            forall|j: int| 0 <= j < i ==> result@[j] == data@[j] ^ key@[j % (klen as int)],
            forall|j: int| i <= j < N ==> result@[j] == 0u8,
        decreases N - i,
    {
        result[i] = data[i] ^ key[i % klen];
        i = i + 1;
    }
    assert forall|j: int| 0 <= j < N implies result@[j] == if j < data@.len() {
        data@[j] ^ key@[j % (key@.len() as int)]
    } else {
        0u8
    } by {
        if j < i {
        } else {
            assert(j >= data@.len());
        }
    }
    result
}

/// XOR with a non-empty key undoes itself.
pub proof fn lemma_xor_involution(data: Seq<u8>, key: Seq<u8>)
    ensures
        xor_with(xor_with(data, effective_key(key)), effective_key(key)) == data,
{
    let k = effective_key(key);
    assert forall|i: int| 0 <= i < data.len() implies #[trigger] xor_with(xor_with(data, k), k)[i]
        == data[i] by {
        let a = data[i];
        let b = k[i % (k.len() as int)];
        assert((a ^ b) ^ b == a) by (bit_vector);
    }
    assert(xor_with(xor_with(data, k), k) =~= data);
}

} // verus!
