//! Merging adjacent slots into maximal free blocks.
//!
//! The central algorithm of the library: a date's sorted list of discrete
//! slots is folded into contiguous blocks, where the sole merge criterion is
//! adjacency — a slot extends the open block exactly when it starts at the
//! block's end. A closed block is kept only when its accumulated length
//! reaches the requested minimum.
//!
//! Two policies govern the edges of the fold. Under the strict policy
//! every block, the trailing one included, is held to the minimum, and the
//! range past a gap opens the next block itself. Under the lenient policy
//! the block still open when the list ends is emitted whatever its length,
//! and the range that closes a block over a gap opens no block of its own:
//! the next block opens only at the range after it.

use vstd::prelude::*;

use crate::range::TimeRange;
use crate::time::Time;

verus! {

/// Every range in the sequence is well ordered.
pub open spec fn ranges_wf(s: Seq<TimeRange>) -> bool {
    forall|i: int| 0 <= i < s.len() ==> s[i].wf()
}

/// The empty range at midnight, the rest state of the running block.
pub open spec fn zero_range() -> TimeRange {
    TimeRange {
        start: Time { hour: 0, minute: 0 },
        end: Time { hour: 0, minute: 0 },
    }
}

/// The blocks that the merge emits from `s[i..]`, given the running state:
/// `block` is the open block and `len` its accumulated length, zero meaning
/// that no block is open.
pub open spec fn spec_merge_from(
    s: Seq<TimeRange>,
    i: int,
    block: TimeRange,
    len: int,
    min: int,
    lenient: bool,
) -> Seq<TimeRange>
    decreases s.len() - i,
{
    if !(0 <= i < s.len()) {
        if len != 0 && (lenient || len >= min) {
            seq![block]
        } else {
            Seq::empty()
        }
    } else {
        let cur = s[i];
        if len == 0 {
            spec_merge_from(s, i + 1, cur, cur.spec_length(), min, lenient)
        } else if cur.start.spec_minutes() == block.end.spec_minutes() {
            spec_merge_from(
                s,
                i + 1,
                TimeRange { start: block.start, end: cur.end },
                len + cur.spec_length(),
                min,
                lenient,
            )
        } else {
            let rest = if lenient {
                spec_merge_from(s, i + 1, zero_range(), 0, min, lenient)
            } else {
                spec_merge_from(s, i + 1, cur, cur.spec_length(), min, lenient)
            };
            if len >= min {
                seq![block] + rest
            } else {
                rest
            }
        }
    }
}

/// The blocks that merging `s` with threshold `min` yields under the chosen
/// trailing policy.
pub open spec fn spec_merge(s: Seq<TimeRange>, min: int, lenient: bool) -> Seq<TimeRange> {
    spec_merge_from(s, 0, zero_range(), 0, min, lenient)
}

/// Merges adjacent ranges of `slots` into maximal contiguous blocks and
/// keeps those at least `min_minutes` long. With `lenient` set, the
/// trailing open block bypasses the threshold and a gap closes the running
/// block without opening a new one at the current range; without it, every
/// block is held to the threshold and a gap starts a fresh block at the
/// current range.
pub fn merge_contiguous(slots: &Vec<TimeRange>, min_minutes: u32, lenient: bool) -> (r: Vec<
    TimeRange,
>)
    requires
        ranges_wf(slots@),
    ensures
        r@ == spec_merge(slots@, min_minutes as int, lenient),
        ranges_wf(r@),
{
    let mut out: Vec<TimeRange> = Vec::new();
    let mut block = TimeRange::new(Time { hour: 0, minute: 0 }, Time { hour: 0, minute: 0 });
    let mut len: u32 = 0;
    let mut i: usize = 0;
    while i < slots.len()
        invariant
            ranges_wf(slots@),
            i <= slots@.len(),
            len != 0 ==> block.wf() && len == block.spec_length(),
            ranges_wf(out@),
            spec_merge(slots@, min_minutes as int, lenient) == out@ + spec_merge_from(
                slots@,
                i as int,
                block,
                len as int,
                min_minutes as int,
                lenient,
            ),
        decreases slots@.len() - i,
    {
        let cur = slots[i];
        if len == 0 {
            block = cur;
            len = cur.length_minutes();
        } else if cur.start.as_minutes() == block.end.as_minutes() {
            block = TimeRange::new(block.start, cur.end);
            len = len + cur.length_minutes();
        } else {
            if len >= min_minutes {
                out.push(block);
            }
            if lenient {
                block = TimeRange::new(Time { hour: 0, minute: 0 }, Time { hour: 0, minute: 0 });
                len = 0;
            } else {
                block = cur;
                len = cur.length_minutes();
            }
        }
        i = i + 1;
    }
    if len != 0 && (lenient || len >= min_minutes) {
        out.push(block);
    }
    proof {
        assert(out@ == spec_merge(slots@, min_minutes as int, lenient));
    }
    out
}

} // verus!
