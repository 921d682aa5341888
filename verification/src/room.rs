//! A bookable room and its per-date availability.
//!
//! A room owns a mapping from dates to sorted lists of half-hour slots. The
//! mapping is an association list in date insertion order: each date appears
//! at most once, and every date's slot list stays sorted ascending by start
//! time through every insertion.

use vstd::prelude::*;

use crate::label::parse_label;
use crate::label::spec_label_parse;
use crate::merge::merge_contiguous;
use crate::merge::ranges_wf;
use crate::merge::spec_merge;
use crate::range::TimeRange;
use crate::range::spec_parse_stamp;
use crate::time::Date;
use crate::time::ParseError;
use crate::time::Time;
use crate::time::spec_time_add;

verus! {

/// The answer a point query could give a caller that distinguishes a free
/// slot, a booked one, and a date the schedule knows nothing about.
#[derive(Debug, PartialEq, Eq, Structural, Clone, Copy)]
pub enum AvailabilityRating {
    Available,
    Unavailable,
    NoInformation,
}

/// A bookable room: its number, its person capacity, and its per-date
/// availability.
#[derive(Debug, Clone)]
pub struct KingStudyRoom {
    pub room_number: u16,
    pub person_capacity: u8,
    pub available: Vec<(Date, Vec<TimeRange>)>,
}

/// The ranges are sorted ascending by start time.
pub open spec fn sorted_by_start(s: Seq<TimeRange>) -> bool {
    forall|i: int, j: int|
        0 <= i <= j < s.len() ==> s[i].start.spec_minutes() <= s[j].start.spec_minutes()
}

/// Some entry of the availability list carries the date `d`.
pub open spec fn has_date(s: Seq<(Date, Vec<TimeRange>)>, d: Date) -> bool {
    exists|i: int| 0 <= i < s.len() && s[i].0 == d
}

/// The index of the entry that carries the date `d`; meaningful only when
/// `has_date` holds and the dates are unique.
pub open spec fn date_pos(s: Seq<(Date, Vec<TimeRange>)>, d: Date) -> int {
    choose|i: int| 0 <= i < s.len() && s[i].0 == d
}

/// The index where `r` belongs in `s` to keep it sorted: just past every
/// range that starts no later than `r`, and before the first that starts
/// later. A range is inserted after all its equal starts, as a stable sort
/// of the appended element would place it.
pub open spec fn spec_insert_pos(s: Seq<TimeRange>, r: TimeRange) -> int
    decreases s.len(),
{
    if s.len() == 0 {
        0
    } else if s[0].start.spec_minutes() > r.start.spec_minutes() {
        0
    } else {
        1 + spec_insert_pos(s.subrange(1, s.len() as int), r)
    }
}

/// What `spec_insert_pos` points at: every range before it starts no later
/// than `r`, and the range at it, if any, starts later.
pub proof fn lemma_insert_pos(s: Seq<TimeRange>, r: TimeRange)
    ensures
        0 <= spec_insert_pos(s, r) <= s.len(),
        forall|k: int|
            0 <= k < spec_insert_pos(s, r) ==> s[k].start.spec_minutes()
                <= r.start.spec_minutes(),
        spec_insert_pos(s, r) < s.len() ==> s[spec_insert_pos(s, r)].start.spec_minutes()
            > r.start.spec_minutes(),
    decreases s.len(),
{
    if s.len() != 0 && !(s[0].start.spec_minutes() > r.start.spec_minutes()) {
        let sub = s.subrange(1, s.len() as int);
        lemma_insert_pos(sub, r);
        let p = spec_insert_pos(s, r);
        assert forall|k: int| 0 <= k < p implies s[k].start.spec_minutes()
            <= r.start.spec_minutes() by {
            if k > 0 {
                assert(sub[k - 1] == s[k]);
            }
        }
        if p < s.len() {
            assert(sub[p - 1] == s[p]);
        }
    }
}

/// Law: inserting a range at its insertion point keeps the list sorted.
pub proof fn lemma_insert_sorted(s: Seq<TimeRange>, r: TimeRange)
    requires
        sorted_by_start(s),
    ensures
        sorted_by_start(s.insert(spec_insert_pos(s, r), r)),
{
    lemma_insert_pos(s, r);
    let p = spec_insert_pos(s, r);
    let t = s.insert(p, r);
    s.insert_ensures(p, r);
    assert forall|i: int, j: int| 0 <= i <= j < t.len() implies t[i].start.spec_minutes()
        <= t[j].start.spec_minutes() by {
        if i < p {
            assert(t[i] == s[i]);
        } else if i == p {
            assert(t[i] == r);
        } else {
            assert(t[i] == s[i - 1]);
        }
        if j < p {
            assert(t[j] == s[j]);
        } else if j == p {
            assert(t[j] == r);
        } else {
            assert(t[j] == s[j - 1]);
        }
    }
}

/// Inserts `r` into the sorted list `v` at its insertion point.
fn insert_sorted(v: &mut Vec<TimeRange>, r: TimeRange)
    requires
        sorted_by_start(old(v)@),
        ranges_wf(old(v)@),
        r.wf(),
    ensures
        final(v)@ == old(v)@.insert(spec_insert_pos(old(v)@, r), r),
        sorted_by_start(final(v)@),
        ranges_wf(final(v)@),
{
    proof {
        lemma_insert_pos(v@, r);
        lemma_insert_sorted(v@, r);
        v@.insert_ensures(spec_insert_pos(v@, r), r);
    }
    let mut j: usize = 0;
    while j < v.len() && v[j].start.as_minutes() <= r.start.as_minutes()
        invariant
            j <= v@.len(),
            v@ == old(v)@,
            forall|k: int| 0 <= k < j ==> v@[k].start.spec_minutes() <= r.start.spec_minutes(),
        decreases v@.len() - j,
    {
        j = j + 1;
    }
    proof {
        assert(j == spec_insert_pos(v@, r));
    }
    v.insert(j, r);
    proof {
        assert forall|k: int| 0 <= k < v@.len() implies v@[k].wf() by {
            old(v)@.insert_ensures(spec_insert_pos(old(v)@, r), r);
        }
    }
}

/// The slot that a raw timestamp denotes: the half-hour beginning at `t`.
pub open spec fn slot_range(t: Time) -> TimeRange {
    TimeRange { start: t, end: spec_time_add(t, Time { hour: 0, minute: 30 }) }
}

/// How one `add_slot` call relates the availability list after it to the
/// list before it: the slot is inserted into its date's entry at its sorted
/// position, a fresh entry being appended when the date is new, and every
/// other entry stands unchanged.
pub open spec fn spec_slot_added(
    pre: Seq<(Date, Vec<TimeRange>)>,
    post: Seq<(Date, Vec<TimeRange>)>,
    d: Date,
    r: TimeRange,
) -> bool {
    if has_date(pre, d) {
        let i = date_pos(pre, d);
        &&& post.len() == pre.len()
        &&& forall|j: int| 0 <= j < pre.len() && j != i ==> post[j] == pre[j]
        &&& post[i].0 == d
        &&& post[i].1@ == pre[i].1@.insert(spec_insert_pos(pre[i].1@, r), r)
    } else {
        &&& post.len() == pre.len() + 1
        &&& forall|j: int| 0 <= j < pre.len() ==> post[j] == pre[j]
        &&& post[pre.len() as int].0 == d
        &&& post[pre.len() as int].1@ == seq![r]
    }
}

impl KingStudyRoom {
    /// The availability list: one entry per date, in insertion order.
    pub open spec fn spec_entries(self) -> Seq<(Date, Vec<TimeRange>)> {
        self.available@
    }

    /// Well-formedness: dates are unique, and every date's slot list is
    /// sorted ascending by start time and holds only well-ordered ranges.
    pub open spec fn wf(self) -> bool {
        &&& forall|i: int, j: int|
            0 <= i < j < self.spec_entries().len() ==> self.spec_entries()[i].0
                != self.spec_entries()[j].0
        &&& forall|i: int|
            0 <= i < self.spec_entries().len() ==> sorted_by_start(self.spec_entries()[i].1@)
                && ranges_wf(self.spec_entries()[i].1@)
    }

    /// Whether the room is free at `t` on `d`: some stored slot for that
    /// date contains the instant.
    pub open spec fn spec_is_available(self, d: Date, t: Time) -> bool {
        exists|i: int, k: int|
            #![trigger self.spec_entries()[i].1@[k]]
            0 <= i < self.spec_entries().len() && self.spec_entries()[i].0 == d && 0 <= k
                < self.spec_entries()[i].1@.len() && self.spec_entries()[i].1@[k].spec_contains(t)
    }

    /// Parses a room label and builds the room it names, with an empty
    /// availability list. The label must contain the room pattern; a
    /// mismatch or an unrepresentable captured value is reported as the
    /// grammar has it.
    pub fn from_str(s: &str) -> (r: Result<KingStudyRoom, ParseError>)
        ensures
            match spec_label_parse(s@) {
                Ok(nc) => r matches Ok(room) && room.room_number == nc.0
                    && room.person_capacity == nc.1 && room.spec_entries().len() == 0
                    && room.wf(),
                Err(e) => r == Err::<KingStudyRoom, ParseError>(e),
            },
    {
        match parse_label(s) {
            Ok((number, capacity)) => Ok(
                KingStudyRoom {
                    room_number: number,
                    person_capacity: capacity,
                    available: Vec::new(),
                },
            ),
            Err(e) => Err(e),
        }
    }

    /// Decodes a raw slot reference and records the half-hour slot it
    /// denotes under its date, keeping that date's list sorted. A reference
    /// that does not decode is silently ignored.
    pub fn add_slot(&mut self, raw: &str)
        requires
            old(self).wf(),
        ensures
            final(self).wf(),
            final(self).room_number == old(self).room_number,
            final(self).person_capacity == old(self).person_capacity,
            match spec_parse_stamp(raw@) {
                None => *final(self) == *old(self),
                Some(dt) => spec_slot_added(
                    old(self).spec_entries(),
                    final(self).spec_entries(),
                    dt.0,
                    slot_range(dt.1),
                ),
            },
    {
        let (d, t) = match TimeRange::parse_stamp(raw) {
            Some(dt) => dt,
            None => {
                return ;
            },
        };
        let thirty = Time { hour: 0, minute: 30 };
        let end = t.add(&thirty);
        let range = TimeRange::new(t, end);
        let ghost pre = self.available@;
        let mut idx: usize = 0;
        let mut found = false;
        loop
            invariant
                self == old(self),
                idx <= pre.len(),
                pre == self.available@,
                !found ==> forall|k: int| 0 <= k < idx ==> pre[k].0 != d,
                found ==> idx < pre.len() && pre[idx as int].0 == d,
            ensures
                pre == self.available@,
                found ==> idx < pre.len() && pre[idx as int].0 == d,
                !found ==> forall|k: int| 0 <= k < pre.len() ==> pre[k].0 != d,
            decreases pre.len() - idx + (if found { 0int } else { 1int }),
        {
            if found || idx == self.available.len() {
                break ;
            }
            if self.available[idx].0 == d {
                found = true;
            } else {
                idx = idx + 1;
            }
        }
        if found {
            proof {
                assert(has_date(pre, d));
                assert forall|i: int| 0 <= i < pre.len() && pre[i].0 == d implies i == idx as int by {
                    let es = old(self).spec_entries();
                    if i < idx as int {
                        assert(es[i].0 != es[idx as int].0);
                    } else if i > idx as int {
                        assert(es[idx as int].0 != es[i].0);
                    }
                }
                assert(date_pos(pre, d) == idx);
                assert(sorted_by_start(old(self).spec_entries()[idx as int].1@));
                assert(ranges_wf(old(self).spec_entries()[idx as int].1@));
                assert(range.wf());
            }
            let mut entry = self.available.remove(idx);
            insert_sorted(&mut entry.1, range);
            self.available.insert(idx, entry);
            proof {
                pre.remove_ensures(idx as int);
                pre.remove(idx as int).insert_ensures(idx as int, entry);
                let post = self.available@;
                assert forall|j: int| 0 <= j < pre.len() && j != idx as int implies post[j]
                    == pre[j] by {
                    if j < idx as int {
                        assert(pre.remove(idx as int)[j] == pre[j]);
                        assert(post[j] == pre.remove(idx as int)[j]);
                    } else {
                        assert(pre.remove(idx as int)[j - 1] == pre[j]);
                        assert(post[j] == pre.remove(idx as int)[j - 1]);
                    }
                }
                assert(post[idx as int] == entry);
                assert(range == slot_range(t));
                assert(spec_slot_added(pre, post, d, slot_range(t)));
                assert forall|a: int, b: int| 0 <= a < b < post.len() implies post[a].0
                    != post[b].0 by {
                    assert(old(self).spec_entries()[a].0 != old(self).spec_entries()[b].0);
                }
                assert forall|a: int| 0 <= a < post.len() implies sorted_by_start(post[a].1@)
                    && ranges_wf(post[a].1@) by {
                    if a != idx as int {
                        assert(sorted_by_start(old(self).spec_entries()[a].1@));
                        assert(ranges_wf(old(self).spec_entries()[a].1@));
                    }
                }
            }
        } else {
            let mut fresh: Vec<TimeRange> = Vec::new();
            fresh.push(range);
            self.available.push((d, fresh));
            proof {
                assert(!has_date(pre, d));
                let post = self.available@;
                assert(post[pre.len() as int].1@ =~= seq![range]);
                assert(range == slot_range(t));
                assert(spec_slot_added(pre, post, d, slot_range(t)));
                assert(range.wf());
                assert forall|a: int| 0 <= a < post.len() implies sorted_by_start(post[a].1@)
                    && ranges_wf(post[a].1@) by {
                    if a < pre.len() {
                        assert(sorted_by_start(old(self).spec_entries()[a].1@));
                        assert(ranges_wf(old(self).spec_entries()[a].1@));
                    } else {
                        assert(post[a].1@ =~= seq![range]);
                        assert(seq![range][0] == range);
                    }
                }
                assert forall|a: int, b: int| 0 <= a < b < post.len() implies post[a].0
                    != post[b].0 by {
                    if b < pre.len() {
                        assert(old(self).spec_entries()[a].0 != old(self).spec_entries()[b].0);
                    }
                }
            }
        }
    }

    /// Whether the room is free at time `t` on date `d`: false when the
    /// date is unknown, and otherwise true exactly when some slot stored
    /// for the date contains the instant.
    pub fn is_available(&self, d: &Date, t: &Time) -> (r: bool)
        ensures
            r == self.spec_is_available(*d, *t),
    {
        let mut i: usize = 0;
        while i < self.available.len()
            invariant
                i <= self.available@.len(),
                forall|ii: int, k: int|
                    0 <= ii < i && self.available@[ii].0 == *d && 0 <= k
                        < self.available@[ii].1@.len() ==> !self.available@[ii].1@[k].spec_contains(
                        *t,
                    ),
            decreases self.available@.len() - i,
        {
            if self.available[i].0 == *d {
                let slots = &self.available[i].1;
                let mut k: usize = 0;
                while k < slots.len()
                    invariant
                        0 <= i < self.available@.len(),
                        self.available@[i as int].0 == *d,
                        slots == &self.available@[i as int].1,
                        k <= slots@.len(),
                        forall|kk: int| 0 <= kk < k ==> !slots@[kk].spec_contains(*t),
                    decreases slots@.len() - k,
                {
                    if slots[k].contains_time(t) {
                        proof {
                            assert(self.spec_entries()[i as int].1@[k as int].spec_contains(*t));
                        }
                        return true;
                    }
                    k = k + 1;
                }
            }
            i = i + 1;
        }
        false
    }

    /// The slots stored for date `d`, when the date is known.
    pub fn slots_for(&self, d: &Date) -> (r: Option<&Vec<TimeRange>>)
        ensures
            r is Some <==> has_date(self.spec_entries(), *d),
            r matches Some(v) ==> exists|i: int|
                0 <= i < self.spec_entries().len() && self.spec_entries()[i].0 == *d
                    && self.spec_entries()[i].1@ == v@,
    {
        let mut i: usize = 0;
        while i < self.available.len()
            invariant
                i <= self.available@.len(),
                forall|k: int| 0 <= k < i ==> self.available@[k].0 != *d,
            decreases self.available@.len() - i,
        {
            if self.available[i].0 == *d {
                return Some(&self.available[i].1);
            }
            i = i + 1;
        }
        None
    }

    /// The merged free blocks of the room, in date insertion order: each
    /// date's sorted slot list merged under the lenient policy of
    /// `merge_contiguous`. The threshold reflects a fixed business rule: a
    /// single reservation never exceeds two hours.
    pub fn find_available_ranges(&self, minutes: u8) -> (r: Vec<TimeRange>)
        requires
            self.wf(),
            minutes <= 120,
        ensures
            r@ == self.spec_available_ranges(minutes as int),
    {
        let mut out: Vec<TimeRange> = Vec::new();
        let mut i: usize = 0;
        while i < self.available.len()
            invariant
                self.wf(),
                i <= self.available@.len(),
                out@ == spec_ranges_upto(self.spec_entries(), i as int, minutes as int),
            decreases self.available@.len() - i,
        {
            let mut part = merge_contiguous(&self.available[i].1, minutes as u32, true);
            out.append(&mut part);
            i = i + 1;
        }
        out
    }

    /// The merged free blocks the room offers at threshold `min`.
    pub open spec fn spec_available_ranges(self, min: int) -> Seq<TimeRange> {
        spec_ranges_upto(self.spec_entries(), self.spec_entries().len() as int, min)
    }
}

/// The merged blocks of the first `n` availability entries, concatenated in
/// entry order.
pub open spec fn spec_ranges_upto(
    s: Seq<(Date, Vec<TimeRange>)>,
    n: int,
    min: int,
) -> Seq<TimeRange>
    decreases n,
{
    if n <= 0 {
        Seq::empty()
    } else {
        spec_ranges_upto(s, n - 1, min) + spec_merge(s[n - 1].1@, min, true)
    }
}

} // verus!
