//! The per-segment fetch step: each chunk received from a ranged transfer
//! is appended to the segment as it arrives, never buffered or rewritten.

use vstd::prelude::*;

verus! {

/// Append one received chunk to a segment, returning how many bytes were
/// delivered (the amount counted toward the running total and reported to
/// the progress sink).
pub fn append_chunk(segment: &mut Vec<u8>, chunk: &Vec<u8>) -> (added: usize)
    requires
        old(segment)@.len() + chunk@.len() <= usize::MAX,
    ensures
        final(segment)@ == old(segment)@ + chunk@,
        added == chunk@.len(),
{
    let mut k: usize = 0;
    proof {
        assert(segment@ =~= old(segment)@ + chunk@.take(0));
    }
    while k < chunk.len()
        invariant
            k <= chunk@.len(),
            old(segment)@.len() + chunk@.len() <= usize::MAX,
            segment@ == old(segment)@ + chunk@.take(k as int),
        decreases chunk@.len() - k,
    {
        let b = chunk[k];
        segment.push(b);
        proof {
            assert(chunk@.take(k as int + 1) =~= chunk@.take(k as int).push(b));
            assert(segment@ =~= old(segment)@ + chunk@.take(k as int + 1));
        }
        k = k + 1;
    }
    proof {
        assert(chunk@.take(chunk@.len() as int) =~= chunk@);
    }
    k
}

} // verus!
