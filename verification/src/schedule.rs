//! The full set of bookable rooms and the queries across it.

use vstd::prelude::*;

use crate::range::TimeRange;
use crate::room::KingStudyRoom;
use crate::time::Date;
use crate::time::Time;

verus! {

/// Every room of a schedule, in order of ingestion. Built once from a full
/// parse; all queries are non-mutating scans.
pub struct Schedule {
    pub rooms: Vec<KingStudyRoom>,
}

/// The availability test a point query applies to each room.
pub open spec fn avail_pred(d: Date, t: Time) -> spec_fn(KingStudyRoom) -> bool {
    |room: KingStudyRoom| room.spec_is_available(d, t)
}

/// The rooms behind a sequence of room references.
pub open spec fn room_vals(s: Seq<&KingStudyRoom>) -> Seq<KingStudyRoom> {
    s.map_values(|room: &KingStudyRoom| *room)
}

impl Schedule {
    /// Well-formedness: every room is well formed.
    pub open spec fn wf(self) -> bool {
        forall|i: int| 0 <= i < self.rooms@.len() ==> self.rooms@[i].wf()
    }

    /// Builds the schedule that owns exactly the given rooms, in order.
    pub fn from_rooms(rooms: Vec<KingStudyRoom>) -> (s: Schedule)
        requires
            forall|i: int| 0 <= i < rooms@.len() ==> rooms@[i].wf(),
        ensures
            s.rooms@ == rooms@,
            s.wf(),
    {
        Schedule { rooms }
    }

    /// Every room that is free at time `t` on date `d`, in ingestion order.
    pub fn all_available_at_datetime(&self, d: &Date, t: &Time) -> (r: Vec<&KingStudyRoom>)
        ensures
            room_vals(r@) == self.rooms@.filter(avail_pred(*d, *t)),
    {
        let mut out: Vec<&KingStudyRoom> = Vec::new();
        proof {
            assert(room_vals(out@) =~= self.rooms@.subrange(0, 0).filter(avail_pred(*d, *t)))
                by {
                reveal(Seq::filter);
                assert(self.rooms@.subrange(0, 0) =~= Seq::<KingStudyRoom>::empty());
            }
        }
        let mut i: usize = 0;
        while i < self.rooms.len()
            invariant
                i <= self.rooms@.len(),
                room_vals(out@) == self.rooms@.subrange(0, i as int).filter(avail_pred(*d, *t)),
            decreases self.rooms@.len() - i,
        {
            let ghost pred = avail_pred(*d, *t);
            let ghost sub1 = self.rooms@.subrange(0, i + 1);
            proof {
                reveal(Seq::filter);
                assert(sub1.drop_last() =~= self.rooms@.subrange(0, i as int));
                assert(sub1.last() == self.rooms@[i as int]);
            }
            let room = &self.rooms[i];
            if room.is_available(d, t) {
                out.push(room);
                proof {
                    assert(pred(sub1.last()));
                    assert(sub1.filter(pred) == sub1.drop_last().filter(pred).push(sub1.last()));
                    assert(room_vals(out@) =~= sub1.filter(pred));
                }
            } else {
                proof {
                    assert(!pred(sub1.last()));
                    assert(sub1.filter(pred) == sub1.drop_last().filter(pred));
                }
            }
            i = i + 1;
        }
        proof {
            assert(self.rooms@.subrange(0, self.rooms@.len() as int) =~= self.rooms@);
        }
        out
    }

    /// For each room, in ingestion order, its number paired with its merged
    /// free blocks at threshold `minutes`.
    pub fn find_available_ranges(&self, minutes: u8) -> (r: Vec<(u16, Vec<TimeRange>)>)
        requires
            self.wf(),
            minutes <= 120,
        ensures
            r@.len() == self.rooms@.len(),
            forall|i: int|
                0 <= i < r@.len() ==> r@[i].0 == self.rooms@[i].room_number && r@[i].1@
                    == self.rooms@[i].spec_available_ranges(minutes as int),
    {
        let mut out: Vec<(u16, Vec<TimeRange>)> = Vec::new();
        let mut i: usize = 0;
        while i < self.rooms.len()
            invariant
                self.wf(),
                minutes <= 120,
                i <= self.rooms@.len(),
                out@.len() == i,
                forall|j: int|
                    0 <= j < i ==> out@[j].0 == self.rooms@[j].room_number && out@[j].1@
                        == self.rooms@[j].spec_available_ranges(minutes as int),
            decreases self.rooms@.len() - i,
        {
            let room = &self.rooms[i];
            let ranges = room.find_available_ranges(minutes);
            out.push((room.room_number, ranges));
            i = i + 1;
        }
        out
    }
}

} // verus!
