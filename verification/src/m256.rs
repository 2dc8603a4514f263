//! 256-bit machine words and the big-endian bytes that spell them.

use vstd::arithmetic::div_mod::{lemma_fundamental_div_mod_converse, lemma_small_mod};
use vstd::prelude::*;

verus! {

/// 256 to the power `n`.
pub open spec fn pow256(n: nat) -> nat
    decreases n,
{
    if n == 0 {
        1
    } else {
        256 * pow256((n - 1) as nat)
    }
}

/// The number that `bytes` spell in base 256, most significant byte first.
/// No bytes spell zero.
pub open spec fn be_value(bytes: Seq<u8>) -> nat
    decreases bytes.len(),
{
    if bytes.len() == 0 {
        0
    } else {
        be_value(bytes.drop_last()) * 256 + bytes.last() as nat
    }
}

/// Powers of 256 are positive and grow with the exponent.
pub proof fn lemma_pow256_monotonic(m: nat, n: nat)
    requires
        m <= n,
    ensures
        0 < pow256(m) <= pow256(n),
    decreases n,
{
    if m < n {
        lemma_pow256_monotonic(m, (n - 1) as nat);
    } else if n > 0 {
        lemma_pow256_monotonic((m - 1) as nat, (n - 1) as nat);
    }
}

/// `n` bytes spell a number below 256 to the power `n`.
pub proof fn lemma_be_value_bound(bytes: Seq<u8>)
    ensures
        be_value(bytes) < pow256(bytes.len()),
    decreases bytes.len(),
{
    if bytes.len() > 0 {
        lemma_be_value_bound(bytes.drop_last());
    }
}

/// Bytes that are all zero spell zero.
pub proof fn lemma_be_value_zeros(bytes: Seq<u8>)
    requires
        forall|i: int| 0 <= i < bytes.len() ==> bytes[i] == 0,
    ensures
        be_value(bytes) == 0,
    decreases bytes.len(),
{
    if bytes.len() > 0 {
        lemma_be_value_zeros(bytes.drop_last());
    }
}

/// The last `k` bytes count by themselves; the bytes before them count
/// 256 to the power `k` times.
pub proof fn lemma_be_value_split(bytes: Seq<u8>, k: nat)
    requires
        k <= bytes.len(),
    ensures
        be_value(bytes) == be_value(bytes.subrange(0, bytes.len() - k)) * pow256(k) + be_value(
            bytes.subrange(bytes.len() - k, bytes.len() as int),
        ),
    decreases k,
{
    let len = bytes.len() as int;
    let head = bytes.subrange(0, len - k);
    let tail = bytes.subrange(len - k, len);
    if k == 0 {
        assert(head =~= bytes);
        assert(be_value(tail) == 0);
        assert(pow256(k) == 1);
    } else {
        let shorter = bytes.drop_last();
        lemma_be_value_split(shorter, (k - 1) as nat);
        assert(shorter.subrange(0, len - k) =~= head);
        assert(shorter.subrange(len - k, len - 1) =~= tail.drop_last());
        let h = be_value(head);
        let t = be_value(tail.drop_last());
        let p = pow256((k - 1) as nat);
        assert(be_value(bytes) == (h * p + t) * 256 + bytes.last() as nat);
        assert(be_value(tail) == t * 256 + bytes.last() as nat);
        assert((h * p + t) * 256 == h * (256 * p) + t * 256) by (nonlinear_arith);
    }
}

/// The remainder of a number modulo 256 to the power `k` is what the last `k`
/// of its bytes spell.
pub proof fn lemma_be_value_mod(bytes: Seq<u8>, k: nat)
    requires
        k <= bytes.len(),
    ensures
        be_value(bytes) % pow256(k) == be_value(
            bytes.subrange(bytes.len() - k, bytes.len() as int),
        ),
{
    let len = bytes.len() as int;
    let head = bytes.subrange(0, len - k);
    let tail = bytes.subrange(len - k, len);
    lemma_be_value_split(bytes, k);
    lemma_be_value_bound(tail);
    lemma_fundamental_div_mod_converse(
        be_value(bytes) as int,
        pow256(k) as int,
        be_value(head) as int,
        be_value(tail) as int,
    );
}

/// The bytes of `bytes` that a word of 256 bits keeps: all of up to 32 bytes,
/// the last 32 of more.
pub open spec fn low_bytes(bytes: Seq<u8>) -> Seq<u8> {
    if bytes.len() <= 32 {
        bytes
    } else {
        bytes.subrange(bytes.len() - 32, bytes.len() as int)
    }
}

/// Modulo 2 to the power 256, bytes spell what the bytes that a word keeps of
/// them spell.
pub proof fn lemma_low_bytes(bytes: Seq<u8>)
    ensures
        be_value(bytes) % pow256(32) == be_value(low_bytes(bytes)),
        be_value(low_bytes(bytes)) < pow256(32),
{
    if bytes.len() <= 32 {
        lemma_be_value_bound(bytes);
        lemma_pow256_monotonic(bytes.len(), 32);
        lemma_small_mod(be_value(bytes), pow256(32));
    } else {
        lemma_be_value_mod(bytes, 32);
        lemma_be_value_bound(low_bytes(bytes));
    }
}

/// An unsigned integer of 256 bits.
#[derive(Clone, Copy, Debug, PartialEq, Eq)]
pub struct M256 {
    /// The 32 bytes of the number, most significant first.
    bytes: [u8; 32],
}

impl View for M256 {
    type V = nat;

    /// The number that the word holds.
    closed spec fn view(&self) -> nat {
        be_value(self.bytes@)
    }
}

impl M256 {
    /// One more than the largest number that a word holds: 2 to the power 256.
    pub open spec fn modulus() -> nat {
        pow256(32)
    }

    /// Every word holds a number below the modulus.
    pub proof fn lemma_in_range(self)
        ensures
            self@ < M256::modulus(),
    {
        lemma_be_value_bound(self.bytes@);
    }

    /// The word that big-endian `bytes` spell. Of more than 32 bytes the last
    /// 32 count: the number is taken modulo 2 to the power 256. Fewer bytes,
    /// or none, spell the same number as with zero bytes before them.
    pub fn from_be_bytes(bytes: &[u8]) -> (word: M256)
        ensures
            word@ == be_value(bytes@) % M256::modulus(),
            bytes@.len() <= 32 ==> word@ == be_value(bytes@),
    {
        let len = bytes.len();
        let width: usize = if len < 32 {
            len
        } else {
            32
        };
        let skip: usize = len - width;
        let lead: usize = 32 - width;
        let mut word = [0u8;32];
        let mut k: usize = 0;
        while k < width
            invariant
                k <= width <= 32,
                lead == 32 - width,
                skip == len - width,
                len == bytes@.len(),
                forall|j: int| 0 <= j < lead ==> word@[j] == 0,
                forall|j: int| lead <= j < lead + k ==> word@[j] == bytes@[j - lead + skip],
            decreases width - k,
        {
            word[lead + k] = bytes[skip + k];
            k += 1;
        }
        proof {
            assert(word@.subrange(lead as int, 32) =~= low_bytes(bytes@));
            lemma_be_value_zeros(word@.subrange(0, lead as int));
            lemma_be_value_split(word@, width as nat);
            assert(be_value(word@) == be_value(low_bytes(bytes@)));
            lemma_low_bytes(bytes@);
        }
        M256 { bytes: word }
    }

    /// The 32 bytes that spell the number, most significant first.
    pub fn to_be_bytes(&self) -> (bytes: [u8; 32])
        ensures
            be_value(bytes@) == self@,
    {
        self.bytes
    }
}

} // verus!
