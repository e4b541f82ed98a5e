//! Partitioning a total length into contiguous parts.

use vstd::prelude::*;
use vstd::arithmetic::div_mod::{lemma_fundamental_div_mod, lemma_mod_bound};
use vstd::arithmetic::mul::lemma_mul_inequality;
use crate::part::Part;

verus! {

/// Size of every part but the last: the total length divided evenly.
pub open spec fn plan_base(length: int, n: int) -> int {
    length / n
}

/// Sum of the sizes of a sequence of parts.
pub open spec fn total_size(parts: Seq<Part>) -> int
    decreases parts.len(),
{
    if parts.len() == 0 {
        0
    } else {
        total_size(parts.drop_last()) + parts.last().size
    }
}

/// Each part starts exactly where its predecessor ends.
pub open spec fn contiguous(parts: Seq<Part>) -> bool {
    forall|i: int|
        #![trigger parts[i + 1], parts[i]]
        0 <= i < parts.len() - 1 ==> parts[i + 1].offset == parts[i].offset + parts[i].size
}

/// The sizes of a contiguous run of parts sum to the distance from the
/// first part's start to the last part's end.
pub proof fn lemma_contiguous_total(parts: Seq<Part>)
    requires
        parts.len() > 0,
        contiguous(parts),
    ensures
        total_size(parts) == parts.last().offset + parts.last().size - parts[0].offset,
    decreases parts.len(),
{
    if parts.len() == 1 {
        assert(total_size(parts.drop_last()) == 0);
        assert(parts.last() == parts[0]);
    } else {
        let prefix = parts.drop_last();
        assert(contiguous(prefix)) by {
            assert forall|i: int|
                #![trigger prefix[i + 1], prefix[i]]
                0 <= i < prefix.len() - 1 implies prefix[i + 1].offset == prefix[i].offset
                + prefix[i].size by {
                assert(parts[i + 1].offset == parts[i].offset + parts[i].size);
            }
        }
        lemma_contiguous_total(prefix);
        let k = parts.len() - 2;
        assert(parts[k + 1].offset == parts[k].offset + parts[k].size);
        assert(prefix.last() == parts[k as int]);
        assert(prefix[0] == parts[0]);
        assert(parts.last() == parts[k + 1]);
        assert(total_size(parts) == total_size(prefix) + parts.last().size);
    }
}

/// Parts of a contiguous plan never overlap: an earlier part ends no
/// later than any later part begins.
pub proof fn lemma_contiguous_disjoint(parts: Seq<Part>, i: int, j: int)
    requires
        contiguous(parts),
        0 <= i < j < parts.len(),
    ensures
        parts[i].offset + parts[i].size <= parts[j].offset,
    decreases j - i,
{
    let k = j - 1;
    assert(parts[k + 1].offset == parts[k].offset + parts[k].size);
    if i < k {
        lemma_contiguous_disjoint(parts, i, k);
    }
}

/// The even base size times any count up to `n` stays within the length.
proof fn lemma_base_bound(length: int, n: int, k: int)
    requires
        length >= 0,
        1 <= n,
        0 <= k <= n,
    ensures
        k * plan_base(length, n) <= length,
{
    let base = plan_base(length, n);
    lemma_fundamental_div_mod(length, n);
    lemma_mod_bound(length, n);
    assert(n * base <= length);
    lemma_mul_inequality(k, n, base);
}

/// Split `length` bytes into `n` contiguous parts, indexed `1..=n` in
/// order. Every part but the last has size `length / n`; the last part
/// absorbs the remainder, so the sizes always sum to exactly `length`.
pub fn plan(length: usize, n: i32) -> (parts: Vec<Part>)
    requires
        1 <= n,
    ensures
        parts@.len() == n as int,
        forall|i: int| 0 <= i < n ==> (#[trigger] parts@[i]).index == i + 1,
        forall|i: int|
            0 <= i < n ==> (#[trigger] parts@[i]).offset == i * plan_base(length as int, n as int),
        forall|i: int|
            0 <= i < n - 1 ==> (#[trigger] parts@[i]).size == plan_base(length as int, n as int),
        parts@.last().size == length - (n - 1) * plan_base(length as int, n as int),
        parts@[0].offset == 0,
        contiguous(parts@),
        parts@.last().offset + parts@.last().size == length,
        total_size(parts@) == length,
{
    let n_us: usize = n as usize;
    let base: usize = length / n_us;
    proof {
        lemma_fundamental_div_mod(length as int, n as int);
        lemma_mod_bound(length as int, n as int);
    }
    let mut parts: Vec<Part> = Vec::new();
    let mut i: usize = 0;
    while i < n_us
        invariant
            1 <= n,
            n_us == n as int,
            base == plan_base(length as int, n as int),
            0 <= i <= n_us,
            parts@.len() == i as int,
            forall|j: int| 0 <= j < i ==> (#[trigger] parts@[j]).index == j + 1,
            forall|j: int| 0 <= j < i ==> (#[trigger] parts@[j]).offset == j * base,
            forall|j: int| 0 <= j < i && j < n_us - 1 ==> (#[trigger] parts@[j]).size == base,
            i == n_us ==> parts@.last().size == length - (n - 1) * base,
        decreases n_us - i,
    {
        proof {
            lemma_base_bound(length as int, n as int, i as int);
        }
        let offset: usize = i * base;
        let size: usize = if i + 1 == n_us {
            length - i * base
        } else {
            base
        };
        parts.push(Part::new((i + 1) as i32, offset, size));
        i = i + 1;
    }
    proof {
        lemma_base_bound(length as int, n as int, n - 1);
        assert(contiguous(parts@)) by {
            assert forall|j: int|
                #![trigger parts@[j + 1], parts@[j]]
                0 <= j < parts@.len() - 1 implies parts@[j + 1].offset == parts@[j].offset
                + parts@[j].size by {
                assert((j + 1) * base == j * base + base) by (nonlinear_arith);
            }
        }
        lemma_contiguous_total(parts@);
    }
    parts
}

} // verus!
