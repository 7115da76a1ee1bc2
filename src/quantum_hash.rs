use crate::clock::{instant_now, nanos_since};
use crate::digest::{
    blake3, blake3_of, hex_chars, sha256, sha256_of, sha3_256, sha3_256_of, sha3_512, sha3_512_of,
    to_hex_string,
};
use vstd::prelude::*;

verus! {

/// Hash algorithms offered for quantum-resistant hashing.
#[derive(Debug, Clone, Copy, PartialEq, Eq, Structural)]
pub enum HashAlgorithm {
    SHA256,
    SHA3_256,
    SHA3_512,
    BLAKE3,
}

/// A digest together with the algorithm that produced it.
#[derive(Debug, Clone, PartialEq, Eq)]
pub struct Hash {
    pub algorithm: HashAlgorithm,
    pub bytes: Vec<u8>,
}

/// Hashing utilities with quantum-resistant defaults.
pub struct QuantumHash;

/// Time each algorithm took on one input, in nanoseconds.
#[derive(Debug, Clone)]
pub struct BenchmarkResults {
    pub results: Vec<(HashAlgorithm, u128)>,
}

/// The digest of `data` under `alg`.
pub open spec fn digest_of(alg: HashAlgorithm, data: Seq<u8>) -> Seq<u8> {
    match alg {
        HashAlgorithm::SHA256 => sha256_of(data),
        HashAlgorithm::SHA3_256 => sha3_256_of(data),
        HashAlgorithm::SHA3_512 => sha3_512_of(data),
        HashAlgorithm::BLAKE3 => blake3_of(data),
    }
}

/// One level up a Merkle tree: each pair of nodes hashed together with
/// BLAKE3, and a last unpaired node hashed alone.
pub open spec fn merkle_parent(level: Seq<Seq<u8>>, i: int) -> Seq<u8> {
    if 2 * i + 1 < level.len() {
        blake3_of(level[2 * i] + level[2 * i + 1])
    } else {
        blake3_of(level[2 * i])
    }
}

/// The level above `level`.
pub open spec fn merkle_next(level: Seq<Seq<u8>>) -> Seq<Seq<u8>> {
    Seq::new(((level.len() + 1) / 2) as nat, |i: int| merkle_parent(level, i))
}

/// The single node that repeated levels reduce a non-empty level to.
pub open spec fn merkle_top(level: Seq<Seq<u8>>) -> Seq<u8>
    decreases level.len(),
{
    if level.len() <= 1 {
        level[0]
    } else {
        merkle_top(merkle_next(level))
    }
}

/// The BLAKE3 Merkle root of `leaves`: the digest of nothing for no
/// leaves, else the top over the leaves' digests.
pub open spec fn merkle_root_of(leaves: Seq<Seq<u8>>) -> Seq<u8> {
    if leaves.len() == 0 {
        blake3_of(Seq::empty())
    } else {
        merkle_top(leaves.map_values(|l: Seq<u8>| blake3_of(l)))
    }
}

/// The byte strings held by a list of vectors.
pub open spec fn views_of(v: Seq<Vec<u8>>) -> Seq<Seq<u8>> {
    v.map_values(|b: Vec<u8>| b@)
}

/// Whether `alg` is the first of the fastest algorithms in `results`; an
/// empty list names BLAKE3.
pub open spec fn is_fastest(results: Seq<(HashAlgorithm, u128)>, alg: HashAlgorithm) -> bool {
    if results.len() == 0 {
        alg == HashAlgorithm::BLAKE3
    } else {
        exists|i: int|
            0 <= i < results.len() && results[i].0 == alg && (forall|j: int|
                0 <= j < results.len() ==> results[i].1 <= results[j].1) && (forall|j: int|
                0 <= j < i ==> results[j].1 > results[i].1)
    }
}

fn array_to_vec(a: &[u8]) -> (r: Vec<u8>)
    ensures
        r@ == a@,
{
    let mut out: Vec<u8> = Vec::new();
    let mut i: usize = 0;
    while i < a.len()
        invariant
            0 <= i <= a@.len(),
            out@ =~= a@.subrange(0, i as int),
        decreases a@.len() - i,
    {
        out.push(a[i]);
        i += 1;
    }
    assert(a@.subrange(0, a@.len() as int) =~= a@);
    out
}

impl Hash {
    /// The digest of `data` under `algorithm`.
    pub fn new(data: &[u8], algorithm: HashAlgorithm) -> (r: Self)
        ensures
            r.algorithm == algorithm,
            r.bytes@ == digest_of(algorithm, data@),
            r.bytes@.len() == if algorithm == HashAlgorithm::SHA3_512 { 64int } else { 32int },
    {
        let bytes = match algorithm {
            HashAlgorithm::SHA256 => array_to_vec(sha256(data).as_slice()),
            HashAlgorithm::SHA3_256 => array_to_vec(sha3_256(data).as_slice()),
            HashAlgorithm::SHA3_512 => array_to_vec(sha3_512(data).as_slice()),
            HashAlgorithm::BLAKE3 => array_to_vec(blake3(data).as_slice()),
        };
        Hash { algorithm, bytes }
    }

    /// Whether this is the digest of `data` under its algorithm.
    pub fn verify(&self, data: &[u8]) -> (r: bool)
        ensures
            r == (self.bytes@ == digest_of(self.algorithm, data@)),
    {
        let computed = Hash::new(data, self.algorithm);
        crate::crypto::bytes_equal(computed.bytes.as_slice(), self.bytes.as_slice())
    }

    /// The digest in lowercase hexadecimal.
    pub fn to_hex(&self) -> (r: String)
        ensures
            r@ == hex_chars(self.bytes@),
    {
        to_hex_string(self.bytes.as_slice())
    }

    /// Digest length in bytes.
    pub fn size(&self) -> (r: usize)
        ensures
            r == self.bytes@.len(),
    {
        self.bytes.len()
    }
}

impl QuantumHash {
    /// The default algorithm, SHA3-256.
    pub fn default_algorithm() -> (r: HashAlgorithm)
        ensures
            r == HashAlgorithm::SHA3_256,
    {
        HashAlgorithm::SHA3_256
    }

    /// Transaction digest: SHA3-256.
    pub fn hash_transaction(tx_data: &[u8]) -> (r: Hash)
        ensures
            r.algorithm == HashAlgorithm::SHA3_256,
            r.bytes@ == sha3_256_of(tx_data@),
    {
        Hash::new(tx_data, HashAlgorithm::SHA3_256)
    }

    /// Block digest: SHA3-512.
    pub fn hash_block(block_data: &[u8]) -> (r: Hash)
        ensures
            r.algorithm == HashAlgorithm::SHA3_512,
            r.bytes@ == sha3_512_of(block_data@),
    {
        Hash::new(block_data, HashAlgorithm::SHA3_512)
    }

    /// The BLAKE3 Merkle root of `leaves`.
    pub fn merkle_root(leaves: &[Vec<u8>]) -> (r: Hash)
        requires
            forall|i: int| 0 <= i < leaves@.len() ==> leaves@[i]@.len() <= usize::MAX / 2,
        ensures
            r.algorithm == HashAlgorithm::BLAKE3,
            r.bytes@ == merkle_root_of(views_of(leaves@)),
            r.bytes@.len() == 32,
    {
        if leaves.len() == 0 {
            let empty: [u8; 0] = [];
            proof {
                assert(empty@ =~= Seq::<u8>::empty());
            }
            return Hash::new(empty.as_slice(), HashAlgorithm::BLAKE3);
        }
        let mut level: Vec<Vec<u8>> = Vec::new();
        let mut i: usize = 0;
        while i < leaves.len()
            invariant
                0 <= i <= leaves@.len(),
                views_of(level@) =~= views_of(leaves@).map_values(|l: Seq<u8>| blake3_of(l)).subrange(0, i as int),
                forall|j: int| 0 <= j < level@.len() ==> level@[j]@.len() == 32,
            decreases leaves@.len() - i,
        {
            let h = Hash::new(leaves[i].as_slice(), HashAlgorithm::BLAKE3);
            let ghost prev = level@;
            level.push(h.bytes);
            assert(views_of(level@) =~= views_of(prev).push(blake3_of(leaves@[i as int]@)));
            i += 1;
        }
        let ghost leaf_digests = views_of(leaves@).map_values(|l: Seq<u8>| blake3_of(l));
        assert(views_of(level@) =~= leaf_digests);
        while level.len() > 1
            invariant
                level@.len() >= 1,
                merkle_top(views_of(level@)) == merkle_top(leaf_digests),
                forall|j: int| 0 <= j < level@.len() ==> level@[j]@.len() == 32,
            decreases level@.len(),
        {
            let mut next: Vec<Vec<u8>> = Vec::new();
            let mut k: usize = 0;
            let ghost cur = views_of(level@);
            while k < level.len() - k
                invariant
                    level@.len() > 1,
                    cur == views_of(level@),
                    0 <= 2 * k <= level@.len() + 1,
                    next@.len() == k,
                    forall|j: int| 0 <= j < k ==> #[trigger] next@[j]@ == merkle_parent(cur, j),
                    forall|j: int| 0 <= j < next@.len() ==> next@[j]@.len() == 32,
                    forall|j: int| 0 <= j < level@.len() ==> level@[j]@.len() == 32,
                decreases level@.len() + 1 - 2 * k,
            {
                let h = if k + k + 1 < level.len() {
                    let combined = crate::crypto::concat_bytes(level[k + k].as_slice(), level[k + k + 1].as_slice());
                    Hash::new(combined.as_slice(), HashAlgorithm::BLAKE3)
                } else {
                    Hash::new(level[k + k].as_slice(), HashAlgorithm::BLAKE3)
                };
                proof {
                    if 2 * k + 1 < level@.len() {
                        assert(level@[2 * k as int]@ + level@[2 * k + 1]@ == cur[2 * k as int] + cur[2 * k + 1]);
                    }
                }
                next.push(h.bytes);
                k += 1;
            }
            assert(views_of(next@) =~= merkle_next(cur));
            level = next;
        }
        let ghost last = views_of(level@);
        assert(merkle_top(last) == last[0]);
        let top = level[0].clone();
        Hash { algorithm: HashAlgorithm::BLAKE3, bytes: top }
    }

    /// Times one hash of `data` under each algorithm, in the order SHA-256,
    /// SHA3-256, SHA3-512, BLAKE3.
    pub fn benchmark_algorithms(data: &[u8]) -> (r: BenchmarkResults)
        ensures
            r.results@.len() == 4,
            r.results@[0].0 == HashAlgorithm::SHA256,
            r.results@[1].0 == HashAlgorithm::SHA3_256,
            r.results@[2].0 == HashAlgorithm::SHA3_512,
            r.results@[3].0 == HashAlgorithm::BLAKE3,
    {
        let algorithms = [
            HashAlgorithm::SHA256,
            HashAlgorithm::SHA3_256,
            HashAlgorithm::SHA3_512,
            HashAlgorithm::BLAKE3,
        ];
        let mut results: Vec<(HashAlgorithm, u128)> = Vec::new();
        let mut i: usize = 0;
        while i < 4
            invariant
                0 <= i <= 4,
                results@.len() == i,
                forall|j: int| 0 <= j < i ==> #[trigger] results@[j].0 == algorithms@[j],
            decreases 4 - i,
        {
            let start = instant_now();
            let _ = Hash::new(data, algorithms[i]);
            let took = nanos_since(&start);
            results.push((algorithms[i], took));
            i += 1;
        }
        BenchmarkResults { results }
    }
}

impl BenchmarkResults {
    /// The first of the fastest algorithms; BLAKE3 when nothing was timed.
    pub fn fastest(&self) -> (r: HashAlgorithm)
        ensures
            is_fastest(self.results@, r),
    {
        if self.results.len() == 0 {
            return HashAlgorithm::BLAKE3;
        }
        let mut best: usize = 0;
        let mut i: usize = 1;
        while i < self.results.len()
            invariant
                1 <= i <= self.results@.len(),
                0 <= best < i,
                forall|j: int| 0 <= j < i ==> self.results@[best as int].1 <= self.results@[j].1,
                forall|j: int| 0 <= j < best ==> self.results@[j].1 > self.results@[best as int].1,
            decreases self.results@.len() - i,
        {
            if self.results[i].1 < self.results[best].1 {
                best = i;
            }
            i += 1;
        }
        self.results[best].0
    }
}

} // verus!
