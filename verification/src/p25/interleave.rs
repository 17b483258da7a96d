//! Dibit interleaving of coded TSBK blocks.
//!
//! The 98 coded dibits of a trellis-coded block are sent in an interleaved
//! order: the dibit pairs (0,1), (8,9), ..., (96,97) first, then the pairs
//! starting at 2, 10, ..., 90, then those starting at 4, 12, ..., 92, and
//! last those starting at 6, 14, ..., 94.

use vstd::prelude::*;
use crate::p25::types::Dibit;

verus! {

/// The number of transmitted dibits before pair group `b` (0 through 3).
pub open spec fn group_start(b: nat) -> nat {
    if b == 0 {
        0
    } else {
        (26 + 24 * (b - 1)) as nat
    }
}

/// The coded position of the dibit sent at transmission position `i`:
/// group `b`, member `j` of that group, is coded position
/// `8 * (j / 2) + 2 * b + j % 2`.
pub open spec fn interleave_source(i: nat) -> nat {
    let b: nat = if i < 26 {
        0
    } else if i < 50 {
        1
    } else if i < 74 {
        2
    } else {
        3
    };
    let j = (i - group_start(b)) as nat;
    8 * (j / 2) + 2 * b + j % 2
}

/// The transmission position of coded position `o`.
pub open spec fn deinterleave_source(o: nat) -> nat {
    let b = (o % 8) / 2;
    group_start(b) + 2 * (o / 8) + o % 2
}

/// The two position maps are inverse bijections of 0..98.
pub proof fn lemma_interleave_inverse(i: nat)
    requires
        i < 98,
    ensures
        interleave_source(i) < 98,
        deinterleave_source(i) < 98,
        deinterleave_source(interleave_source(i)) == i,
        interleave_source(deinterleave_source(i)) == i,
{
}

/// Interleave 98 coded dibits into transmission order.
pub fn interleave(coded: &[Dibit]) -> (r: Vec<Dibit>)
    requires
        coded@.len() == 98,
    ensures
        r@.len() == 98,
        forall|i: int| 0 <= i < 98 ==> #[trigger] r@[i] == coded@[interleave_source(i as nat) as int],
{
    let mut out: Vec<Dibit> = Vec::new();
    let mut i: usize = 0;
    while i < 98
        invariant
            i <= 98,
            coded@.len() == 98,
            out@.len() == i,
            forall|m: int| 0 <= m < i ==> #[trigger] out@[m] == coded@[interleave_source(m as nat) as int],
        decreases 98 - i,
    {
        let b: usize = if i < 26 {
            0
        } else if i < 50 {
            1
        } else if i < 74 {
            2
        } else {
            3
        };
        let start: usize = if b == 0 {
            0
        } else {
            26 + 24 * (b - 1)
        };
        let j = i - start;
        let src = 8 * (j / 2) + 2 * b + j % 2;
        proof {
            lemma_interleave_inverse(i as nat);
        }
        out.push(coded[src]);
        i += 1;
    }
    out
}

/// Restore the coded order of 98 dibits received in transmission order.
pub fn deinterleave(received: &[Dibit]) -> (r: Vec<Dibit>)
    requires
        received@.len() == 98,
    ensures
        r@.len() == 98,
        forall|o: int| 0 <= o < 98 ==> #[trigger] r@[o] == received@[deinterleave_source(o as nat) as int],
        forall|i: int| 0 <= i < 98 ==> r@[interleave_source(i as nat) as int] == #[trigger] received@[i],
{
    let mut out: Vec<Dibit> = Vec::new();
    let mut o: usize = 0;
    while o < 98
        invariant
            o <= 98,
            received@.len() == 98,
            out@.len() == o,
            forall|m: int| 0 <= m < o ==> #[trigger] out@[m] == received@[deinterleave_source(m as nat) as int],
        decreases 98 - o,
    {
        let b = (o % 8) / 2;
        let start: usize = if b == 0 {
            0
        } else {
            26 + 24 * (b - 1)
        };
        let src = start + 2 * (o / 8) + o % 2;
        proof {
            lemma_interleave_inverse(o as nat);
        }
        out.push(received[src]);
        o += 1;
    }
    proof {
        assert forall|i: int| 0 <= i < 98 implies out@[interleave_source(i as nat) as int] == #[trigger] received@[i] by {
            lemma_interleave_inverse(i as nat);
        }
    }
    out
}

/// Deinterleaving undoes interleaving.
pub proof fn lemma_deinterleave_interleave(coded: Seq<Dibit>, sent: Seq<Dibit>, restored: Seq<Dibit>)
    requires
        coded.len() == 98,
        sent.len() == 98,
        restored.len() == 98,
        forall|i: int| 0 <= i < 98 ==> #[trigger] sent[i] == coded[interleave_source(i as nat) as int],
        forall|o: int| 0 <= o < 98 ==> #[trigger] restored[o] == sent[deinterleave_source(o as nat) as int],
    ensures
        restored == coded,
{
    assert forall|o: int| 0 <= o < 98 implies #[trigger] restored[o] == coded[o] by {
        lemma_interleave_inverse(o as nat);
    }
    assert(restored =~= coded);
}

} // verus!
