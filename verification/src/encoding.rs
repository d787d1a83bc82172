//! Reading fixed-width fields out of byte strings.

use vstd::prelude::*;

verus! {

/// The number that a byte string spells in little-endian order.
pub open spec fn le_value(bytes: Seq<u8>) -> nat
    decreases bytes.len(),
{
    if bytes.len() == 0 {
        0
    } else {
        bytes.first() as nat + 256 * le_value(bytes.drop_first())
    }
}

/// 256 to the power `n`.
pub open spec fn pow256(n: nat) -> nat
    decreases n,
{
    if n == 0 {
        1
    } else {
        256 * pow256((n - 1) as nat)
    }
}

/// Eight bytes spell a number that fits 64 bits.
proof fn lemma_pow256_8()
    ensures
        pow256(8) == 0x1_0000_0000_0000_0000,
{
    reveal_with_fuel(pow256, 9);
}

/// Reads the 64-bit little-endian number at `bytes[at .. at + 8]`.
pub fn read_u64_le(bytes: &[u8], at: usize) -> (r: u64)
    requires
        at + 8 <= bytes@.len(),
    ensures
        r == le_value(bytes@.subrange(at as int, at + 8)),
{
    let ghost field = bytes@.subrange(at as int, at + 8);
    let len: usize = bytes.len();
    let mut r: u64 = 0;
    let mut i: usize = 8;
    proof {
        lemma_pow256_8();
        assert(field.subrange(8, 8) =~= Seq::<u8>::empty());
    }
    while i > 0
        invariant
            i <= 8,
            len == bytes@.len(),
            at + 8 <= len,
            field == bytes@.subrange(at as int, at + 8),
            r == le_value(field.subrange(i as int, 8)),
            r < pow256((8 - i) as nat),
            pow256(8) == 0x1_0000_0000_0000_0000,
        decreases i,
    {
        i -= 1;
        let b: u8 = bytes[at + i];
        proof {
            let rest = field.subrange(i + 1, 8);
            let all = field.subrange(i as int, 8);
            assert(all.first() == b);
            assert(all.drop_first() =~= rest);
            lemma_pow256_monotonic((8 - i) as nat, 8);
        }
        r = r * 256 + (b as u64);
    }
    assert(field.subrange(0, 8) =~= field);
    r
}

proof fn lemma_pow256_monotonic(m: nat, n: nat)
    requires
        m <= n,
    ensures
        pow256(m) <= pow256(n),
    decreases n,
{
    if m < n {
        lemma_pow256_monotonic(m, (n - 1) as nat);
    }
}

/// Copies the 32 bytes at `bytes[at .. at + 32]`.
pub fn take_32(bytes: &[u8], at: usize) -> (r: [u8; 32])
    requires
        at + 32 <= bytes@.len(),
    ensures
        r@ == bytes@.subrange(at as int, at + 32),
{
    let len: usize = bytes.len();
    let mut r: [u8; 32] = [0u8; 32];
    let mut i: usize = 0;
    while i < 32
        invariant
            i <= 32,
            len == bytes@.len(),
            at + 32 <= len,
            forall|j: int| 0 <= j < i ==> r@[j] == bytes@[at + j],
        decreases 32 - i,
    {
        r[i] = bytes[at + i];
        i += 1;
    }
    assert(r@ =~= bytes@.subrange(at as int, at + 32));
    r
}

/// The array of `N` bytes that holds `bytes`.
pub open spec fn array_of<const N: usize>(bytes: Seq<u8>) -> [u8; N] {
    choose|a: [u8; N]| a@ == bytes
}

/// For `N` bytes there is such an array.
pub proof fn lemma_array_of<const N: usize>(bytes: Seq<u8>)
    requires
        bytes.len() == N,
    ensures
        array_of::<N>(bytes)@ == bytes,
{
    let a: [u8; N] = arbitrary();
    lemma_array_exists::<N>(bytes, a, 0);
}

proof fn lemma_array_exists<const N: usize>(bytes: Seq<u8>, a: [u8; N], upto: int)
    requires
        bytes.len() == N,
        0 <= upto <= N,
        forall|j: int| 0 <= j < upto ==> a@[j] == bytes[j],
    ensures
        exists|b: [u8; N]| b@ == bytes,
    decreases N - upto,
{
    if upto == N {
        assert(a@ =~= bytes);
    } else {
        let next = vstd::array::spec_array_update(a, upto, bytes[upto]);
        vstd::array::axiom_spec_array_update(a, upto, bytes[upto]);
        lemma_array_exists::<N>(bytes, next, upto + 1);
    }
}

} // verus!
