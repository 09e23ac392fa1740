//! Widget identifiers: stable 64-bit FNV-1a hashes of tree paths or string keys.
use vstd::prelude::*;
use vstd::string::*;

verus! {

/// FNV-1a 64-bit offset basis.
pub const FNV_OFFSET_BASIS: u64 = 0xcbf29ce484222325u64;

/// FNV-1a 64-bit prime.
pub const FNV_PRIME: u64 = 0x100000001b3u64;

/// One FNV-1a round: xor the byte in, then multiply by the prime modulo 2^64.
pub open spec fn fnv1a_step(hash: u64, byte: u8) -> u64 {
    (hash ^ (byte as u64)).wrapping_mul(FNV_PRIME)
}

/// FNV-1a over `bytes`, starting from the running hash `hash`.
pub open spec fn fnv1a(hash: u64, bytes: Seq<u8>) -> u64
    decreases bytes.len(),
{
    if bytes.len() == 0 {
        hash
    } else {
        fnv1a_step(fnv1a(hash, bytes.drop_last()), bytes.last())
    }
}

/// The little-endian encoding of `x` in `n` bytes.
pub open spec fn le_bytes(x: nat, n: nat) -> Seq<u8>
    decreases n,
{
    if n == 0 {
        Seq::empty()
    } else {
        seq![(x % 256) as u8] + le_bytes(x / 256, (n - 1) as nat)
    }
}

/// `bytes` is the in-memory representation of `x`: as many bytes as a `usize`
/// occupies, in little-endian or in big-endian order.
pub open spec fn is_native_encoding(x: usize, bytes: Seq<u8>) -> bool {
    &&& bytes.len() * 8 == usize::BITS
    &&& (bytes == le_bytes(x as nat, bytes.len()) || bytes == le_bytes(
        x as nat,
        bytes.len(),
    ).reverse())
}

/// The FNV-1a hash of the concatenation of the byte strings in `chunks`.
pub open spec fn fnv1a_chunks(hash: u64, chunks: Seq<Seq<u8>>) -> u64
    decreases chunks.len(),
{
    if chunks.len() == 0 {
        hash
    } else {
        fnv1a(fnv1a_chunks(hash, chunks.drop_last()), chunks.last())
    }
}

/// The number of bytes in a `usize`.
pub open spec fn usize_bytes() -> nat {
    (usize::BITS / 8) as nat
}

/// The bytes of `x` in one fixed order: little-endian when `little`, else big-endian.
pub open spec fn ordered_bytes(x: usize, little: bool) -> Seq<u8> {
    if little {
        le_bytes(x as nat, usize_bytes())
    } else {
        le_bytes(x as nat, usize_bytes()).reverse()
    }
}

/// The FNV-1a hash of the indices of `path`, each written in the byte order
/// that `little` selects.
pub open spec fn path_hash(path: Seq<usize>, little: bool) -> u64 {
    fnv1a_chunks(FNV_OFFSET_BASIS, path.map_values(|x: usize| ordered_bytes(x, little)))
}

/// `id` is a path-based identifier of `path`: the FNV-1a hash of its indices,
/// all written in one and the same byte order.
pub open spec fn is_path_id(path: Seq<usize>, id: WidgetId) -> bool {
    id.0 == path_hash(path, true) || id.0 == path_hash(path, false)
}

/// Every byte of the encoding of zero is zero.
proof fn lemma_le_bytes_of_zero(m: nat, j: int)
    requires
        0 <= j < m,
    ensures
        le_bytes(0, m)[j] == 0,
    decreases m,
{
    lemma_le_bytes_len(0, (m - 1) as nat);
    if j > 0 {
        lemma_le_bytes_of_zero((m - 1) as nat, j - 1);
    }
}

/// The encoding in `n` bytes has `n` bytes.
proof fn lemma_le_bytes_len(x: nat, n: nat)
    ensures
        le_bytes(x, n).len() == n,
    decreases n,
{
    if n > 0 {
        lemma_le_bytes_len(x / 256, (n - 1) as nat);
    }
}

/// Calls `usize::to_ne_bytes`: the memory representation of `x` in the machine's
/// native byte order. The contract states only what holds on every machine: as
/// many bytes as a `usize` has, in little-endian or big-endian order; which of
/// the two is left unsaid.
#[verifier::external_body]
fn usize_to_ne_bytes(x: usize) -> (bytes: Vec<u8>)
    ensures
        is_native_encoding(x, bytes@),
{
    x.to_ne_bytes().to_vec()
}

/// Unique identifier for a widget, used for state persistence.
#[derive(Debug, Clone, Copy, PartialEq, Eq, Hash, Structural)]
pub struct WidgetId(pub u64);

/// Continues an FNV-1a hash with the bytes of `bytes`.
pub fn fnv1a_extend(hash: u64, bytes: &[u8]) -> (result: u64)
    ensures
        result == fnv1a(hash, bytes@),
{
    let mut h: u64 = hash;
    let mut i: usize = 0;
    while i < bytes.len()
        invariant
            i <= bytes.len(),
            h == fnv1a(hash, bytes@.take(i as int)),
        decreases bytes.len() - i,
    {
        assert(bytes@.take(i + 1).drop_last() =~= bytes@.take(i as int));
        h = (h ^ (bytes[i] as u64)).wrapping_mul(FNV_PRIME);
        i += 1;
    }
    assert(bytes@.take(bytes.len() as int) =~= bytes@);
    h
}

/// The bytes of `x` in the order `little` selects, as many as a `usize` has.
fn bytes_in_order(x: usize, width: usize, little: bool) -> (bytes: Vec<u8>)
    requires
        width == usize_bytes(),
    ensures
        bytes@ == ordered_bytes(x, little),
{
    let mut le: Vec<u8> = Vec::new();
    let mut v: usize = x;
    let mut i: usize = 0;
    while i < width
        invariant
            i <= width,
            width == usize_bytes(),
            le@ + le_bytes(v as nat, (width - i) as nat) == le_bytes(x as nat, width as nat),
        decreases width - i,
    {
        proof {
            assert(le_bytes(v as nat, (width - i) as nat) == seq![(v as nat % 256) as u8]
                + le_bytes(v as nat / 256, (width - i - 1) as nat));
        }
        let ghost before = le@;
        le.push((v % 256) as u8);
        proof {
            assert(le@ + le_bytes((v / 256) as nat, (width - i - 1) as nat) =~= before + (
            seq![(v as nat % 256) as u8] + le_bytes(v as nat / 256, (width - i - 1) as nat)));
        }
        v = v / 256;
        i += 1;
    }
    assert(le@ =~= le_bytes(x as nat, width as nat));
    if little {
        return le;
    }
    proof {
        lemma_le_bytes_len(x as nat, width as nat);
    }
    let mut be: Vec<u8> = Vec::new();
    let mut k: usize = width;
    while k > 0
        invariant
            k <= width,
            le@.len() == width,
            be@ =~= le@.reverse().take((width - k) as int),
        decreases k,
    {
        be.push(le[k - 1]);
        k -= 1;
    }
    assert(be@ =~= le@.reverse());
    be
}

impl WidgetId {
    /// Generate a widget ID from a path in the widget tree: the FNV-1a hash of
    /// the in-memory bytes of each index, in order. The machine's byte order is
    /// read once and used for every index.
    pub fn from_path(path: &[usize]) -> (id: WidgetId)
        ensures
            is_path_id(path@, id),
            path@.len() == 0 ==> id.0 == FNV_OFFSET_BASIS,
    {
        let probe = usize_to_ne_bytes(1);
        let width: usize = probe.len();
        proof {
            lemma_le_bytes_len(1, width as nat);
            lemma_le_bytes_of_zero((width - 1) as nat, width - 2);
            assert(le_bytes(1, width as nat)[0] == 1);
            assert(le_bytes(1, width as nat).reverse()[0] == le_bytes(1, width as nat)[width - 1]);
            assert(le_bytes(1, width as nat)[width - 1] == le_bytes(0, (width - 1) as nat)[width - 2]);
        }
        let little: bool = probe[0] == 1;
        assert(little ==> probe@ == le_bytes(1, width as nat));
        let ghost chunks: Seq<Seq<u8>> = path@.map_values(|x: usize| ordered_bytes(x, little));
        let mut hash: u64 = FNV_OFFSET_BASIS;
        let mut i: usize = 0;
        while i < path.len()
            invariant
                i <= path.len(),
                width == usize_bytes(),
                chunks == path@.map_values(|x: usize| ordered_bytes(x, little)),
                hash == fnv1a_chunks(FNV_OFFSET_BASIS, chunks.take(i as int)),
            decreases path.len() - i,
        {
            let bytes = bytes_in_order(path[i], width, little);
            hash = fnv1a_extend(hash, bytes.as_slice());
            proof {
                assert(chunks.take(i + 1).drop_last() =~= chunks.take(i as int));
            }
            i += 1;
        }
        assert(chunks.take(path.len() as int) =~= chunks);
        WidgetId(hash)
    }

    /// Generate a widget ID from a string key (for manual assignment): the
    /// FNV-1a hash of the key's UTF-8 bytes.
    pub fn from_key(key: &str) -> (id: WidgetId)
        ensures
            id.0 == fnv1a(FNV_OFFSET_BASIS, key.spec_bytes()),
    {
        WidgetId(fnv1a_extend(FNV_OFFSET_BASIS, key.as_bytes()))
    }
}

} // verus!
