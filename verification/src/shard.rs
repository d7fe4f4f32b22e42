//! Shards: the committees among which the substate address space is divided.
use crate::substate_address::SubstateAddress;
use crate::uint::{u256_max, U256};
use vstd::arithmetic::div_mod::{lemma_fundamental_div_mod, lemma_mod_pos_bound};
use vstd::prelude::*;

verus! {

/// The index of a committee shard.
#[derive(Clone, Copy, Debug, PartialEq, Eq, Structural, PartialOrd, Ord, Hash)]
pub struct Shard(u32);

impl View for Shard {
    type V = u32;

    closed spec fn view(&self) -> u32 {
        self.0
    }
}

/// The size that every one of `n` buckets gets before the remainder is spread: `(2^256 - 1) / n`.
pub open spec fn bucket_size(n: nat) -> nat {
    u256_max() / n
}

/// What is left over when `2^256 - 1` is split into `n` buckets.
pub open spec fn bucket_remainder(n: nat) -> nat {
    u256_max() % n
}

/// The first address of bucket `b` of `n`.
pub open spec fn range_start(b: nat, n: nat) -> nat {
    bucket_size(n) * b + if bucket_remainder(n) <= b {
        bucket_remainder(n)
    } else {
        b
    }
}

/// The last address of bucket `b` of `n`: every bucket but the last ends one short where the
/// remainder has been used up.
pub open spec fn range_end(b: nat, n: nat) -> int {
    range_start(b, n) + bucket_size(n) - if b + 1 != n && bucket_remainder(n) <= b {
        1int
    } else {
        0int
    }
}

/// The inclusive address range `(first, last)` of shard `b` among `n` committees; with no
/// committees the one range covers every address.
pub open spec fn shard_range(b: nat, n: nat) -> (int, int) {
    if n == 0 {
        (0, u256_max() as int)
    } else {
        (range_start(b, n) as int, range_end(b, n))
    }
}

impl Shard {
    /// The shard's index.
    pub fn as_u32(self) -> (r: u32)
        ensures
            r == self@,
    {
        self.0
    }

    /// The inclusive range of substate addresses that this shard covers when the address space is
    /// divided among `num_committees` committees.
    pub fn to_substate_address_range(self, num_committees: u32) -> (r: std::ops::RangeInclusive<
        SubstateAddress,
    >)
        requires
            num_committees == 0 || self@ < num_committees,
        ensures
            r@.start@ == shard_range(self@ as nat, num_committees as nat).0,
            r@.end@ == shard_range(self@ as nat, num_committees as nat).1,
            !r@.exhausted,
    {
        if num_committees == 0 {
            return std::ops::RangeInclusive::new(
                SubstateAddress::zero(),
                SubstateAddress::from_u256(U256::max_value()),
            );
        }
        let bucket: u32 = self.0;
        let (bucket_size, bucket_remainder) = U256::max_value().div_rem_u32(num_committees);
        proof {
            lemma_bucket_bounds(bucket as nat, num_committees as nat);
        }
        let spread: u32 = if bucket_remainder <= bucket {
            bucket_remainder
        } else {
            bucket
        };
        let scaled = bucket_size.checked_mul_u32(bucket).unwrap();
        let start = scaled.checked_add(U256::from_u32(spread)).unwrap();
        let mut end = start.checked_add(bucket_size).unwrap();
        if bucket as u64 + 1 != num_committees as u64 && bucket_remainder <= bucket {
            end = end.checked_sub(U256::one()).unwrap();
        }
        std::ops::RangeInclusive::new(SubstateAddress::from_u256(start), SubstateAddress::from_u256(end))
    }
}

/// The shard with index `v`.
pub closed spec fn shard_of(v: u32) -> Shard {
    Shard(v)
}

/// The shard with index `v` has index `v`.
pub broadcast proof fn lemma_shard_of_view(v: u32)
    ensures
        #[trigger] shard_of(v)@ == v,
{
}

/// Making a shard from a shard's index gives back that shard.
pub proof fn law_shard_from_index(s: Shard)
    ensures
        shard_of(s@) == s,
{
}

/// Shards with the same index are the same shard.
pub proof fn lemma_shard_view_injective(a: Shard, b: Shard)
    requires
        a@ == b@,
    ensures
        a == b,
{
}

impl From<u32> for Shard {
    fn from(v: u32) -> (r: Shard) {
        Shard(v)
    }
}

impl vstd::std_specs::convert::FromSpecImpl<u32> for Shard {
    open spec fn obeys_from_spec() -> bool {
        true
    }

    open spec fn from_spec(v: u32) -> Shard {
        shard_of(v)
    }
}

impl PartialEq<u32> for Shard {
    fn eq(&self, other: &u32) -> (r: bool) {
        self.0 == *other
    }
}

impl vstd::std_specs::cmp::PartialEqSpecImpl<u32> for Shard {
    open spec fn obeys_eq_spec() -> bool {
        true
    }

    open spec fn eq_spec(&self, other: &u32) -> bool {
        self@ == *other
    }
}

impl PartialEq<Shard> for u32 {
    fn eq(&self, other: &Shard) -> (r: bool) {
        *self == other.as_u32()
    }
}

impl vstd::std_specs::cmp::PartialEqSpecImpl<Shard> for u32 {
    open spec fn obeys_eq_spec() -> bool {
        true
    }

    open spec fn eq_spec(&self, other: &Shard) -> bool {
        *self == other@
    }
}

/// The facts of integer division that the bucket arithmetic rests on.
proof fn lemma_bucket_bounds(b: nat, n: nat)
    requires
        0 < n <= 0xffff_ffff,
        b < n,
    ensures
        u256_max() == bucket_size(n) * n + bucket_remainder(n),
        bucket_remainder(n) < n,
        1 <= bucket_size(n),
        bucket_size(n) * b <= u256_max(),
        bucket_size(n) * b + bucket_remainder(n) + bucket_size(n) <= u256_max(),
        bucket_size(n) * (b + 1) == bucket_size(n) * b + bucket_size(n),
{
    let m = u256_max() as int;
    let q = bucket_size(n) as int;
    let r = bucket_remainder(n) as int;
    let ni = n as int;
    let bi = b as int;
    lemma_fundamental_div_mod(m, ni);
    lemma_mod_pos_bound(m, ni);
    assert(m == q * ni + r && 0 <= r < ni && 1 <= q && q * bi + r + q <= m && q * (bi + 1) == q
        * bi + q) by (nonlinear_arith)
        requires
            m == ni * q + r,
            0 <= r < ni,
            0 < ni <= 0xffff_ffff,
            0 <= bi < ni,
            q >= 0,
            m == 115792089237316195423570985008687907853269984665640564039457584007913129639935int,
    ;
}

/// The first shard's range begins at address 0.
pub proof fn law_first_shard_starts_at_zero(n: nat)
    requires
        0 < n <= 0xffff_ffff,
    ensures
        shard_range(0, n).0 == 0,
{
}

/// Each shard's range begins one address after the previous shard's range ends.
pub proof fn law_shards_adjoin(b: nat, n: nat)
    requires
        0 < n <= 0xffff_ffff,
        b + 1 < n,
    ensures
        shard_range(b + 1, n).0 == shard_range(b, n).1 + 1,
{
    lemma_bucket_bounds(b + 1, n);
    lemma_bucket_bounds(b, n);
}

/// The last shard's range ends at the largest address, `2^256 - 1`.
pub proof fn law_last_shard_ends_at_max(n: nat)
    requires
        0 < n <= 0xffff_ffff,
    ensures
        shard_range((n - 1) as nat, n).1 == u256_max(),
{
    lemma_bucket_bounds((n - 1) as nat, n);
}

/// Every shard's range is non-empty and lies within the address space.
pub proof fn law_shard_range_in_bounds(b: nat, n: nat)
    requires
        n <= 0xffff_ffff,
        n == 0 || b < n,
    ensures
        0 <= shard_range(b, n).0 <= shard_range(b, n).1 <= u256_max(),
{
    if n > 0 {
        lemma_bucket_bounds(b, n);
    }
}

/// The shards' ranges are balanced: the spans `last - first` of any two shards of the same
/// division differ by at most one.
pub proof fn law_shard_sizes_balanced(b1: nat, b2: nat, n: nat)
    requires
        0 < n <= 0xffff_ffff,
        b1 < n,
        b2 < n,
    ensures
        shard_range(b1, n).1 - shard_range(b1, n).0 <= shard_range(b2, n).1 - shard_range(b2, n).0
            + 1,
{
}

/// A shard's range ends before the range of any later shard begins.
pub proof fn law_shards_ordered(b1: nat, b2: nat, n: nat)
    requires
        0 < n <= 0xffff_ffff,
        b1 < b2 < n,
    ensures
        shard_range(b1, n).1 < shard_range(b2, n).0,
    decreases b2 - b1,
{
    law_shards_adjoin(b1, n);
    if b1 + 1 < b2 {
        law_shard_range_in_bounds(b1 + 1, n);
        law_shards_ordered(b1 + 1, b2, n);
    }
}

proof fn lemma_find_shard(x: int, b: nat, n: nat) -> (s: nat)
    requires
        0 < n <= 0xffff_ffff,
        b < n,
        0 <= x <= shard_range(b, n).1,
    ensures
        s <= b,
        shard_range(s, n).0 <= x <= shard_range(s, n).1,
    decreases b,
{
    if b == 0 || x >= shard_range(b, n).0 {
        b
    } else {
        law_shards_adjoin((b - 1) as nat, n);
        lemma_find_shard(x, (b - 1) as nat, n)
    }
}

/// Whether address `x` lies in the range of shard `b` of `n`.
pub open spec fn shard_contains(b: nat, n: nat, x: int) -> bool {
    shard_range(b, n).0 <= x <= shard_range(b, n).1
}

/// The shards' ranges divide the address space: every address lies in the range of exactly one
/// shard.
pub proof fn law_every_address_in_exactly_one_shard(x: int, n: nat)
    requires
        0 < n <= 0xffff_ffff,
        0 <= x <= u256_max(),
    ensures
        exists|b: nat| b < n && #[trigger] shard_contains(b, n, x),
        forall|b1: nat, b2: nat|
            b1 < n && b2 < n && #[trigger] shard_contains(b1, n, x) && #[trigger] shard_contains(
                b2,
                n,
                x,
            ) ==> b1 == b2,
{
    law_last_shard_ends_at_max(n);
    let s = lemma_find_shard(x, (n - 1) as nat, n);
    assert(s < n && shard_contains(s, n, x));
    assert forall|b1: nat, b2: nat|
        b1 < n && b2 < n && #[trigger] shard_contains(b1, n, x) && #[trigger] shard_contains(
            b2,
            n,
            x,
        ) implies b1 == b2 by {
        if b1 < b2 {
            law_shards_ordered(b1, b2, n);
        } else if b2 < b1 {
            law_shards_ordered(b2, b1, n);
        }
    }
}

} // verus!
