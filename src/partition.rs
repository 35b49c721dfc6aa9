//! Splitting an inclusive key range into contiguous partitions.
use crate::bignum::{key_add, key_div_u64, key_le, key_mul_u64, key_of_u64, key_sub, Key};
use vstd::prelude::*;

verus! {

/// Why a search cannot be set up.
#[derive(Debug, PartialEq, Eq, Structural)]
pub enum ConfigError {
    /// No partition was asked for.
    ZeroPartitions,
    /// The range starts after it ends.
    InvertedRange,
    /// A range bound is not a number.
    UnparsableBound,
    /// The compute mode is none of the known ones.
    UnknownComputeMode,
    /// The search mode is none of the known ones.
    UnknownSearchMode,
    /// The lane ratio is above one.
    RatioAboveOne,
}

/// One contiguous slice of the search range: the keys `start <= x < stop`.
pub struct Partition {
    pub id: usize,
    pub start: Key,
    pub stop: Key,
}

impl Partition {
    pub open spec fn spec_start(&self) -> nat {
        self.start@
    }

    pub open spec fn spec_stop(&self) -> nat {
        self.stop@
    }

    /// Whether the key lies in this partition.
    pub open spec fn holds(&self, x: nat) -> bool {
        self.start@ <= x < self.stop@
    }
}

/// Width of every partition but the last.
pub open spec fn base_width(start: nat, end: nat, k: nat) -> nat {
    ((end + 1 - start) as nat) / k
}

/// First key of partition `i`.
pub open spec fn part_start(start: nat, end: nat, k: nat, i: nat) -> nat {
    start + base_width(start, end, k) * i
}

/// One past the last key of partition `i`: the last partition runs to the end.
pub open spec fn part_stop(start: nat, end: nat, k: nat, i: nat) -> nat {
    if i + 1 == k {
        end + 1
    } else {
        start + base_width(start, end, k) * (i + 1)
    }
}

/// Splits `[start, end]` into `k` contiguous partitions; partition `i` is
/// `[start + i*base, start + (i+1)*base - 1]` with `base = (end-start+1) div k`,
/// and the last one also takes the remainder up to `end`.
pub fn partition_range(start: &Key, end: &Key, k: usize) -> (r: Result<Vec<Partition>, ConfigError>)
    ensures
        k == 0 ==> r == Err::<Vec<Partition>, ConfigError>(ConfigError::ZeroPartitions),
        k > 0 && start@ > end@ ==> r == Err::<Vec<Partition>, ConfigError>(
            ConfigError::InvertedRange,
        ),
        k > 0 && start@ <= end@ ==> r.is_ok(),
        r.is_ok() ==> {
            let parts = r.unwrap()@;
            &&& parts.len() == k
            &&& forall|i: int|
                0 <= i < k ==> {
                    &&& (#[trigger] parts[i]).id == i
                    &&& parts[i].start@ == part_start(start@, end@, k as nat, i as nat)
                    &&& parts[i].stop@ == part_stop(start@, end@, k as nat, i as nat)
                    &&& parts[i].start@ <= parts[i].stop@
                }
        },
{
    if k == 0 {
        return Err(ConfigError::ZeroPartitions);
    }
    if !key_le(start, end) {
        return Err(ConfigError::InvertedRange);
    }
    let one = key_of_u64(1);
    let stop_all = key_add(end, &one);
    let size = key_sub(&stop_all, start);
    let base = key_div_u64(&size, k as u64);
    let mut parts: Vec<Partition> = Vec::new();
    let mut i: usize = 0;
    while i < k
        invariant
            0 < k,
            i <= k,
            stop_all@ == end@ + 1,
            base@ == base_width(start@, end@, k as nat),
            parts@.len() == i,
            forall|j: int|
                0 <= j < i ==> {
                    &&& (#[trigger] parts@[j]).id == j
                    &&& parts@[j].start@ == part_start(start@, end@, k as nat, j as nat)
                    &&& parts@[j].stop@ == part_stop(start@, end@, k as nat, j as nat)
                    &&& parts@[j].start@ <= parts@[j].stop@
                },
            start@ <= end@,
        decreases k - i,
    {
        let lo = key_add(start, &key_mul_u64(&base, i as u64));
        let hi = if i + 1 == k {
            stop_all.clone()
        } else {
            key_add(start, &key_mul_u64(&base, (i + 1) as u64))
        };
        assert(lo@ == part_start(start@, end@, k as nat, i as nat));
        assert(hi@ == part_stop(start@, end@, k as nat, i as nat));
        proof {
            lemma_part_bounds(start@, end@, k as nat, i as nat);
        }
        parts.push(Partition { id: i, start: lo, stop: hi });
        i = i + 1;
    }
    Ok(parts)
}

/// Whether some partition of the split holds `x`.
pub open spec fn in_some_part(start: nat, end: nat, k: nat, x: nat) -> bool {
    exists|i: nat| i < k && part_start(start, end, k, i) <= x < #[trigger] part_stop(start, end, k, i)
}

proof fn lemma_part_bounds(start: nat, end: nat, k: nat, i: nat)
    requires
        start <= end,
        k >= 1,
        i < k,
    ensures
        part_start(start, end, k, i) <= part_stop(start, end, k, i),
        part_stop(start, end, k, i) <= end + 1,
        i + 1 < k ==> part_stop(start, end, k, i) == part_start(start, end, k, i + 1),
{
    let size = (end + 1 - start) as nat;
    let b = base_width(start, end, k);
    assert(b * k <= size) by {
        vstd::arithmetic::div_mod::lemma_fundamental_div_mod(size as int, k as int);
        vstd::arithmetic::div_mod::lemma_mod_pos_bound(size as int, k as int);
    }
    assert(b * i <= b * (i + 1)) by (nonlinear_arith);
    assert(b * (i + 1) <= b * k) by (nonlinear_arith)
        requires
            i + 1 <= k,
    ;
    assert(b * i <= b * k) by (nonlinear_arith)
        requires
            i <= k,
    ;
}

proof fn lemma_parts_ordered(start: nat, end: nat, k: nat, i: nat, j: nat)
    requires
        start <= end,
        k >= 1,
        i < j < k,
    ensures
        part_stop(start, end, k, i) <= part_start(start, end, k, j),
{
    let b = base_width(start, end, k);
    assert(b * (i + 1) <= b * j) by (nonlinear_arith)
        requires
            i + 1 <= j,
    ;
}

proof fn lemma_prefix_cover(start: nat, end: nat, k: nat, j: nat, x: nat)
    requires
        start <= end,
        k >= 1,
        j < k,
        start <= x < part_stop(start, end, k, j),
    ensures
        exists|i: nat|
            i <= j && part_start(start, end, k, i) <= x < #[trigger] part_stop(start, end, k, i),
    decreases j,
{
    lemma_part_bounds(start, end, k, j);
    if j == 0 {
        assert(part_start(start, end, k, 0) == start);
        assert(part_start(start, end, k, 0) <= x < part_stop(start, end, k, 0));
    } else {
        lemma_part_bounds(start, end, k, (j - 1) as nat);
        if x < part_stop(start, end, k, (j - 1) as nat) {
            lemma_prefix_cover(start, end, k, (j - 1) as nat, x);
        } else {
            assert(part_start(start, end, k, j) <= x < part_stop(start, end, k, j));
        }
    }
}

/// The partitions of a range are pairwise disjoint, in order, and together
/// hold exactly the keys of `[start, end]`; every partition but the last is
/// `base` wide, and the last is `base` plus the remainder of the division.
pub proof fn lemma_partitions_cover_range(start: nat, end: nat, k: nat)
    requires
        start <= end,
        k >= 1,
    ensures
        forall|i: nat, j: nat|
            i < j < k ==> #[trigger] part_stop(start, end, k, i) <= #[trigger] part_start(
                start,
                end,
                k,
                j,
            ),
        forall|x: nat| #[trigger] in_some_part(start, end, k, x) <==> start <= x <= end,
        forall|i: nat|
            i + 1 < k ==> #[trigger] part_stop(start, end, k, i) - part_start(start, end, k, i)
                == base_width(start, end, k),
        part_stop(start, end, k, (k - 1) as nat) - part_start(start, end, k, (k - 1) as nat)
            == base_width(start, end, k) + ((end + 1 - start) as nat) % k,
{
    assert forall|i: nat, j: nat| i < j < k implies #[trigger] part_stop(
        start,
        end,
        k,
        i,
    ) <= #[trigger] part_start(start, end, k, j) by {
        lemma_parts_ordered(start, end, k, i, j);
    }
    assert forall|x: nat| #[trigger] in_some_part(start, end, k, x) <==> start <= x <= end by {
        if start <= x <= end {
            assert(part_stop(start, end, k, (k - 1) as nat) == end + 1);
            lemma_prefix_cover(start, end, k, (k - 1) as nat, x);
        }
        if in_some_part(start, end, k, x) {
            let i = choose|i: nat|
                i < k && part_start(start, end, k, i) <= x < #[trigger] part_stop(
                    start,
                    end,
                    k,
                    i,
                );
            lemma_part_bounds(start, end, k, i);
        }
    }
    let b = base_width(start, end, k);
    assert forall|i: nat| i + 1 < k implies #[trigger] part_stop(start, end, k, i) - part_start(
        start,
        end,
        k,
        i,
    ) == base_width(start, end, k) by {
        assert(b * (i + 1) == b * i + b) by (nonlinear_arith);
    }
    let size = (end + 1 - start) as nat;
    assert(b * k + size % k == size) by {
        vstd::arithmetic::div_mod::lemma_fundamental_div_mod(size as int, k as int);
    }
    assert(b * ((k - 1) as nat) + b == b * k) by (nonlinear_arith)
        requires
            k >= 1,
    ;
}

/// When the remainder `(end-start+1) mod k` is at most one, every partition's
/// width `w` is within one of `(end-start+1)/k`: `|w*k - (end-start+1)| <= k`.
pub proof fn lemma_partition_widths_even(start: nat, end: nat, k: nat, i: nat)
    requires
        start <= end,
        k >= 1,
        i < k,
        ((end + 1 - start) as nat) % k <= 1,
    ensures
        ({
            let w = part_stop(start, end, k, i) - part_start(start, end, k, i);
            let size = end + 1 - start;
            &&& w * k <= size + k
            &&& size <= w * k + k
        }),
{
    lemma_partitions_cover_range(start, end, k);
    let b = base_width(start, end, k);
    let size = (end + 1 - start) as nat;
    let r = size % k;
    assert(b * k + r == size) by {
        vstd::arithmetic::div_mod::lemma_fundamental_div_mod(size as int, k as int);
    }
    if i + 1 < k {
        assert(part_stop(start, end, k, i) - part_start(start, end, k, i) == b);
    } else {
        assert(i == k - 1);
        assert((b + r) * k == b * k + r * k) by (nonlinear_arith);
        assert(r * k <= k) by (nonlinear_arith)
            requires
                r <= 1,
        ;
    }
}

} // verus!
