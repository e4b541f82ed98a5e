//! Concatenating completed segments, in ascending index order, into the
//! bytes of the final output.

use vstd::prelude::*;
use crate::part::Part;
use crate::plan::contiguous;

verus! {

/// The bytes of the merged output: the segments, concatenated in order.
pub open spec fn merged(segments: Seq<Seq<u8>>) -> Seq<u8> {
    segments.flatten()
}

/// Concatenate the segments in the order given.
pub fn merge_segments(segments: &Vec<Vec<u8>>) -> (out: Vec<u8>)
    ensures
        out@ == merged(segments.deep_view()),
{
    broadcast use Seq::<_>::lemma_flatten_push;

    let mut out: Vec<u8> = Vec::new();
    let mut i: usize = 0;
    proof {
        assert(segments.deep_view().take(0).flatten() =~= Seq::<u8>::empty());
    }
    while i < segments.len()
        invariant
            i <= segments@.len(),
            segments.deep_view().len() == segments@.len(),
            out@ == segments.deep_view().take(i as int).flatten(),
        decreases segments@.len() - i,
    {
        proof {
            assert(segments.deep_view()[i as int] == segments@[i as int]@);
            assert(out@ =~= segments.deep_view().take(i as int).flatten() + segments@[
                i as int
            ]@.take(0));
        }
        let mut j: usize = 0;
        while j < segments[i].len()
            invariant
                i < segments@.len(),
                segments.deep_view().len() == segments@.len(),
                j <= segments@[i as int]@.len(),
                out@ == segments.deep_view().take(i as int).flatten() + segments@[
                    i as int
                ]@.take(j as int),
            decreases segments@[i as int]@.len() - j,
        {
            let b = segments[i][j];
            out.push(b);
            proof {
                assert(segments@[i as int]@.take(j as int + 1) =~= segments@[
                    i as int
                ]@.take(j as int).push(b));
                assert(out@ =~= segments.deep_view().take(i as int).flatten() + segments@[
                    i as int
                ]@.take(j as int + 1));
            }
            j = j + 1;
        }
        proof {
            assert(segments.deep_view()[i as int] == segments@[i as int]@);
            assert(segments@[i as int]@.take(segments@[i as int]@.len() as int) =~= segments@[
                i as int
            ]@);
            assert(segments.deep_view().take(i as int + 1) =~= segments.deep_view().take(
                i as int,
            ).push(segments.deep_view()[i as int]));
            segments.deep_view().take(i as int).lemma_flatten_push(
                segments.deep_view()[i as int],
            );
            assert(out@ =~= segments.deep_view().take(i as int).push(
                segments.deep_view()[i as int],
            ).flatten());
            assert(out@ =~= segments.deep_view().take(i as int + 1).flatten());
        }
        i = i + 1;
    }
    proof {
        assert(segments.deep_view().take(segments@.len() as int) =~= segments.deep_view());
    }
    out
}

/// Each segment holds exactly the bytes its part covers in the target.
pub open spec fn segments_cover(parts: Seq<Part>, segments: Seq<Seq<u8>>, target: Seq<u8>) -> bool {
    &&& segments.len() == parts.len()
    &&& forall|i: int|
        0 <= i < parts.len() ==> #[trigger] segments[i] == target.subrange(
            parts[i].offset as int,
            parts[i].offset + parts[i].size,
        )
    &&& forall|i: int|
        0 <= i < parts.len() ==> (#[trigger] parts[i]).offset + parts[i].size <= target.len()
}

/// Merging segments that each hold exactly their part's byte range of a
/// target, for a contiguous plan that starts at byte zero and ends at the
/// target's last byte, reproduces the target exactly.
pub proof fn lemma_merge_round_trip(parts: Seq<Part>, segments: Seq<Seq<u8>>, target: Seq<u8>)
    requires
        parts.len() > 0,
        contiguous(parts),
        parts[0].offset == 0,
        parts.last().offset + parts.last().size == target.len(),
        segments_cover(parts, segments, target),
    ensures
        merged(segments) == target,
    decreases parts.len(),
{
    broadcast use Seq::<_>::lemma_flatten_push;

    if parts.len() == 1 {
        assert(segments =~= Seq::empty().push(segments[0]));
        assert(Seq::<Seq<u8>>::empty().flatten() =~= Seq::<u8>::empty());
        assert(segments[0] =~= target);
        assert(merged(segments) =~= target);
    } else {
        let k = parts.len() - 2;
        let pparts = parts.drop_last();
        let psegs = segments.drop_last();
        let pend = parts[k].offset + parts[k].size;
        assert(parts[k + 1].offset == parts[k].offset + parts[k].size);
        let ptarget = target.take(pend);
        assert(contiguous(pparts)) by {
            assert(forall|i: int|
                0 <= i < pparts.len() - 1 ==> pparts[i + 1] == parts[i + 1] && #[trigger] pparts[i]
                    == parts[i]);
        }
        assert(pend <= target.len()) by {
            lemma_end_within(parts, k);
        }
        assert(segments_cover(pparts, psegs, ptarget)) by {
            assert forall|i: int| 0 <= i < pparts.len() implies (#[trigger] pparts[i]).offset
                + pparts[i].size <= ptarget.len() by {
                assert(pparts[i] == parts[i]);
                assert(pparts.last() == parts[k]);
                lemma_end_within(pparts, i);
            }
            assert forall|i: int| 0 <= i < pparts.len() implies #[trigger] psegs[i]
                == ptarget.subrange(pparts[i].offset as int, pparts[i].offset + pparts[i].size) by {
                assert(pparts[i] == parts[i]);
                assert(psegs[i] == segments[i]);
                assert(pparts.last() == parts[k]);
                lemma_end_within(pparts, i);
                assert(parts[i].offset + parts[i].size <= pend);
                assert(segments[i] == target.subrange(
                    parts[i].offset as int,
                    parts[i].offset + parts[i].size,
                ));
                assert(ptarget.subrange(parts[i].offset as int, parts[i].offset + parts[i].size)
                    =~= target.subrange(parts[i].offset as int, parts[i].offset + parts[i].size));
            }
        }
        lemma_merge_round_trip(pparts, psegs, ptarget);
        assert(segments =~= psegs.push(segments[parts.len() - 1]));
        assert(merged(segments) =~= ptarget + segments[parts.len() - 1]);
        assert(segments[parts.len() - 1] == target.subrange(pend, target.len() as int));
        assert(merged(segments) =~= target);
    }
}

/// In a contiguous plan, every part ends no later than the last one.
proof fn lemma_end_within(parts: Seq<Part>, i: int)
    requires
        contiguous(parts),
        0 <= i < parts.len(),
    ensures
        parts[i].offset + parts[i].size <= parts.last().offset + parts.last().size,
    decreases parts.len() - i,
{
    if i == parts.len() - 1 {
    } else {
        assert(parts[i + 1].offset == parts[i].offset + parts[i].size);
        lemma_end_within(parts, i + 1);
    }
}

} // verus!
