//! The packed shard word and the membership test on it.
//!
//! The lowest set bit of a shard word is a marker. The bits above the marker
//! are the prefix that every account of the shard shares; the marker and the
//! bits below it carry no information about the accounts.

use vstd::arithmetic::div_mod::{
    lemma_fundamental_div_mod, lemma_fundamental_div_mod_converse, lemma_mod_bound,
};
use vstd::arithmetic::power2::{lemma2_to64, lemma_pow2_adds, lemma_pow2_unfold, pow2};
use vstd::bits::{lemma_u64_pow2_no_overflow, lemma_u64_shl_is_mul, lemma_u64_shr_is_div};
use vstd::prelude::*;
use vstd::std_specs::bits::{axiom_u64_trailing_zeros, u64_trailing_zeros};

verus! {

/// The shard of the whole space: the marker is the top bit and the prefix is empty.
pub const MASTER_SHARD: u64 = 0x8000_0000_0000_0000;

/// Position of the marker, counted from the least significant bit.
/// It is below 64 exactly for the words that have a set bit.
pub open spec fn marker_position(shard: u64) -> nat {
    u64_trailing_zeros(shard) as nat
}

/// Number of bits in the prefix of `shard`.
pub open spec fn prefix_length(shard: u64) -> nat {
    (63 - marker_position(shard)) as nat
}

/// Number of 64-bit account prefixes that `shard` holds.
pub open spec fn shard_size(shard: u64) -> nat {
    pow2(marker_position(shard) + 1)
}

/// The prefix of `shard` as a number of `prefix_length(shard)` bits.
pub open spec fn prefix_bits(shard: u64) -> nat {
    shard as nat / shard_size(shard)
}

/// `shard` holds `account_prefix`: the two agree in every bit above the marker.
pub open spec fn shard_covers(shard: u64, account_prefix: u64) -> bool {
    account_prefix as nat / shard_size(shard) == prefix_bits(shard)
}

/// The prefix that a shard word packs, spelled out.
#[derive(Clone, Copy, Debug, PartialEq, Eq, Structural)]
pub struct ShardPrefix {
    /// The bits of the prefix, as a number.
    pub bits: u64,
    /// How many bits the prefix has: at most 63.
    pub length: u8,
}

/// Unpacks `shard` into its prefix and the length of the prefix.
pub fn shard_prefix(shard: u64) -> (prefix: ShardPrefix)
    requires
        shard != 0,
    ensures
        prefix.bits == prefix_bits(shard),
        prefix.length == prefix_length(shard),
{
    let x: u32 = shard.trailing_zeros();
    proof {
        axiom_u64_trailing_zeros(shard);
        lemma2_to64();
        if x < 63 {
            lemma_u64_shr_is_div(shard, (x + 1) as u64);
        } else {
            assert(shard as nat / pow2(64) == 0);
        }
    }
    let bits: u64 = if x >= 63 {
        0
    } else {
        shard >> (x + 1)
    };
    ShardPrefix { bits, length: (63 - x) as u8 }
}

/// Whether the account whose identifier starts with `account_prefix` belongs to `shard`.
pub fn shard_contains(shard: u64, account_prefix: u64) -> (r: bool)
    requires
        shard != 0,
    ensures
        r == shard_covers(shard, account_prefix),
{
    let x: u32 = shard.trailing_zeros();
    proof {
        axiom_u64_trailing_zeros(shard);
    }
    let mask: u64 = if x >= 63 {
        0
    } else {
        (!0u64) << (x + 1)
    };
    let differing: u64 = (shard ^ account_prefix) & mask;
    proof {
        if x >= 63 {
            assert((shard ^ account_prefix) & 0u64 == 0) by (bit_vector);
            lemma2_to64();
            assert(shard_size(shard) == pow2(64));
            assert(shard as nat / pow2(64) == 0);
            assert(account_prefix as nat / pow2(64) == 0);
        } else {
            let k: u64 = (x + 1) as u64;
            assert(((shard ^ account_prefix) & ((!0u64) << k) == 0) <==> (shard >> k
                == account_prefix >> k)) by (bit_vector)
                requires
                    k < 64,
            ;
            lemma_u64_shr_is_div(shard, k);
            lemma_u64_shr_is_div(account_prefix, k);
        }
    }
    differing == 0
}

/// The marker of a word is its lowest set bit: a word in which bit `position`
/// is set and every lower bit is clear has its marker there.
pub proof fn lemma_marker_position(shard: u64, position: u64)
    requires
        position < 64,
        (shard >> position) & 1 == 1,
        shard << ((64 - position) as u64) == 0,
    ensures
        marker_position(shard) == position,
{
    axiom_u64_trailing_zeros(shard);
    let found = u64_trailing_zeros(shard) as u64;
    let above_found = (64 - found) as u64;
    let above = (64 - position) as u64;
    assert(found == position) by (bit_vector)
        requires
            position < 64,
            found <= 64,
            above_found == 64 - found,
            above == 64 - position,
            (shard >> position) & 1 == 1,
            shard << above == 0,
            found < 64 ==> (shard >> found) & 1 == 1,
            shard << above_found == 0,
    ;
}

/// The whole-space shard holds every account.
pub proof fn lemma_master_shard_holds_all(account_prefix: u64)
    ensures
        marker_position(MASTER_SHARD) == 63,
        prefix_length(MASTER_SHARD) == 0,
        shard_covers(MASTER_SHARD, account_prefix),
{
    assert((0x8000_0000_0000_0000u64 >> 63u64) & 1 == 1) by (bit_vector);
    assert(0x8000_0000_0000_0000u64 << 1u64 == 0) by (bit_vector);
    lemma_marker_position(MASTER_SHARD, 63);
    lemma2_to64();
    lemma_covers_is_range(MASTER_SHARD, account_prefix);
}

/// The least account prefix that `shard` holds.
pub open spec fn first_prefix(shard: u64) -> int {
    shard - pow2(marker_position(shard))
}

/// The greatest account prefix that `shard` holds.
pub open spec fn last_prefix(shard: u64) -> int {
    shard + pow2(marker_position(shard)) - 1
}

/// A shard word is an odd multiple of its marker: the result is the prefix.
proof fn lemma_marker_decomposition(shard: u64) -> (q: nat)
    requires
        shard != 0,
    ensures
        marker_position(shard) < 64,
        shard_size(shard) == 2 * pow2(marker_position(shard)),
        shard == q * shard_size(shard) + pow2(marker_position(shard)),
        q == prefix_bits(shard),
{
    axiom_u64_trailing_zeros(shard);
    let x = marker_position(shard);
    let k = x as u64;
    let m = pow2(x);
    lemma_u64_pow2_no_overflow(x);
    lemma_pow2_unfold(x + 1);
    let t: u64 = shard >> k;
    let above: u64 = (64 - k) as u64;
    assert(t << k == shard) by (bit_vector)
        requires
            k < 64,
            above == 64 - k,
            shard << above == 0,
            t == shard >> k,
    ;
    assert(t % 2 == 1) by (bit_vector)
        requires
            t & 1 == 1,
    ;
    lemma_u64_shr_is_div(shard, k);
    lemma_fundamental_div_mod(shard as int, m as int);
    lemma_mod_bound(shard as int, m as int);
    assert(t * m == m * t) by (nonlinear_arith);
    lemma_u64_shl_is_mul(t, k);
    let q = (t / 2) as nat;
    assert(shard == q * (2 * m) + m) by (nonlinear_arith)
        requires
            shard == t * m,
            t == 2 * q + 1,
    ;
    lemma_fundamental_div_mod_converse(shard as int, (2 * m) as int, q as int, m as int);
    q
}

/// The account prefixes of a shard are the `shard_size(shard)` consecutive
/// numbers from `first_prefix(shard)` to `last_prefix(shard)`, with the shard
/// word itself in the middle.
pub proof fn lemma_covers_is_range(shard: u64, account_prefix: u64)
    requires
        shard != 0,
    ensures
        shard_covers(shard, account_prefix) <==> first_prefix(shard) <= account_prefix
            <= last_prefix(shard),
        0 <= first_prefix(shard) <= shard <= last_prefix(shard) <= u64::MAX,
        last_prefix(shard) - first_prefix(shard) + 1 == shard_size(shard),
        first_prefix(shard) == prefix_bits(shard) * shard_size(shard),
{
    let q = lemma_marker_decomposition(shard);
    let m = pow2(marker_position(shard));
    let size = shard_size(shard);
    let p = account_prefix as int;
    assert(0 <= q * size) by (nonlinear_arith)
        requires
            0 <= q,
            0 <= size,
    ;
    lemma_fundamental_div_mod(p, size as int);
    lemma_mod_bound(p, size as int);
    if first_prefix(shard) <= p <= last_prefix(shard) {
        lemma_fundamental_div_mod_converse(p, size as int, q as int, p - q * size);
    }
    if p / (size as int) == q {
        assert(size * q == q * size) by (nonlinear_arith);
    }
    lemma2_to64();
    assert(last_prefix(shard) <= u64::MAX) by {
        // the size divides 2^64, and the shard's block of prefixes starts at a multiple of it
        let rest = pow2((63 - marker_position(shard)) as nat);
        lemma_pow2_adds((marker_position(shard) + 1) as nat, (63 - marker_position(shard)) as nat);
        assert(size * rest == 0x1_0000_0000_0000_0000);
        assert(q < rest) by (nonlinear_arith)
            requires
                q * size + m == shard,
                shard < size * rest,
                0 < m,
                0 < size,
        ;
        assert((q + 1) * size <= rest * size) by (nonlinear_arith)
            requires
                q + 1 <= rest,
                0 < size,
        ;
        assert((q + 1) * size == q * size + size) by (nonlinear_arith);
        assert(rest * size == size * rest) by (nonlinear_arith);
    }
}

/// Number of candidates that a search for `shard` is expected to draw: the
/// share of `shard` in the space of 2^64 account prefixes, inverted.
pub fn expected_attempts(shard: u64) -> (n: u64)
    requires
        shard != 0,
    ensures
        n == pow2(prefix_length(shard)),
        n * shard_size(shard) == 0x1_0000_0000_0000_0000,
{
    let prefix = shard_prefix(shard);
    proof {
        axiom_u64_trailing_zeros(shard);
        let k = prefix.length as u64;
        lemma_u64_pow2_no_overflow(k as nat);
        lemma_u64_shl_is_mul(1, k);
        lemma_pow2_adds(k as nat, marker_position(shard) + 1);
        lemma2_to64();
    }
    1u64 << prefix.length
}

} // verus!
