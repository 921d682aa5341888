//! Room-reservation availability model.
//!
//! The library turns a stream of raw half-hour slot records, one per bookable
//! room, into answers to two questions: is a room free at a given date and
//! time, and which contiguous free blocks of at least a requested length does
//! each room offer.

pub mod digits;
pub mod label;
pub mod merge;
pub mod range;
pub mod room;
pub mod schedule;
pub mod time;

pub use range::TimeRange;
pub use room::AvailabilityRating;
pub use room::KingStudyRoom;
pub use schedule::Schedule;
pub use time::Date;
pub use time::ParseError;
pub use time::Time;
pub use time::lemma_time_add_commutative;
pub use time::lemma_time_new_minutes;
pub use time::spec_time_add;
