//! Times of day and the periods of a school day.

use vstd::prelude::*;
use crate::outside::{is_date, local_instant, may_show};

verus! {

/// A wall-clock time without a date: whole seconds since midnight and the
/// nanoseconds within the second. Times are ordered by seconds, then by
/// nanoseconds.
#[derive(Clone, Copy, Debug, PartialEq, Eq, Structural)]
pub struct TimeOfDay {
    pub secs: u32,
    pub frac: u32,
}

impl TimeOfDay {
    /// Whether `self` comes strictly earlier in the day than `other`.
    pub open spec fn before(self, other: TimeOfDay) -> bool {
        self.secs < other.secs || (self.secs == other.secs && self.frac < other.frac)
    }

    /// The time `h:m:s` on the second, as a model value.
    pub open spec fn at(h: int, m: int, s: int) -> TimeOfDay {
        TimeOfDay { secs: (h * 3600 + m * 60 + s) as u32, frac: 0 }
    }

    /// The time `hour:min:sec`, or `None` where a component is out of range.
    pub fn from_hms(hour: u32, min: u32, sec: u32) -> (r: Option<TimeOfDay>)
        ensures
            r == (if hour < 24 && min < 60 && sec < 60 {
                Some(TimeOfDay::at(hour as int, min as int, sec as int))
            } else {
                None
            }),
    {
        if hour < 24 && min < 60 && sec < 60 {
            Some(TimeOfDay { secs: hour * 3600 + min * 60 + sec, frac: 0 })
        } else {
            None
        }
    }

    /// Midnight, the first instant of a day.
    pub fn midnight() -> (r: TimeOfDay)
        ensures
            r == TimeOfDay::at(0, 0, 0),
    {
        TimeOfDay { secs: 0, frac: 0 }
    }

    /// 23:59:59, the last whole second of a day.
    pub fn last_second() -> (r: TimeOfDay)
        ensures
            r == TimeOfDay::at(23, 59, 59),
    {
        TimeOfDay { secs: 86399, frac: 0 }
    }

    /// The hour of the day.
    pub fn hour(&self) -> (r: u32)
        ensures
            r == self.secs / 3600,
    {
        self.secs / 3600
    }

    /// The minute of the hour.
    pub fn minute(&self) -> (r: u32)
        ensures
            r == self.secs / 60 % 60,
    {
        self.secs / 60 % 60
    }

    /// The second of the minute.
    pub fn second(&self) -> (r: u32)
        ensures
            r == self.secs % 60,
    {
        self.secs % 60
    }

    /// Executable form of [`TimeOfDay::before`].
    pub fn is_before(&self, other: &TimeOfDay) -> (r: bool)
        ensures
            r == self.before(*other),
    {
        self.secs < other.secs || (self.secs == other.secs && self.frac < other.frac)
    }
}

/// What a period is used for.
#[derive(Clone, Copy, Debug, PartialEq, Eq, Structural)]
pub enum PeriodType {
    /// A class; the number is the slot in a student's own timetable.
    Class(usize),
    /// Lunch.
    Lunch,
    /// A break.
    Break,
    /// Morning support.
    AMSupport,
    /// The time between two periods.
    Passing,
    /// The time before the first period.
    BeforeSchool,
    /// The time after the last period.
    AfterSchool,
}

/// One labelled interval of a day.
#[derive(Debug, PartialEq, Eq)]
pub struct Period {
    /// A name for display, like "First Period".
    pub friendly_name: String,
    /// When the period starts.
    pub start: TimeOfDay,
    /// The start as an absolute instant on some concrete day; 0 until recorded.
    pub start_timestamp: u64,
    /// When the period ends.
    pub end: TimeOfDay,
    /// The end as an absolute instant on some concrete day; 0 until recorded.
    pub end_timestamp: u64,
    /// What the period is used for.
    pub kind: PeriodType,
}

/// The mathematical value of a [`Period`].
pub struct PeriodModel {
    pub friendly_name: Seq<char>,
    pub start: TimeOfDay,
    pub start_timestamp: u64,
    pub end: TimeOfDay,
    pub end_timestamp: u64,
    pub kind: PeriodType,
}

impl View for Period {
    type V = PeriodModel;

    open spec fn view(&self) -> PeriodModel {
        PeriodModel {
            friendly_name: self.friendly_name@,
            start: self.start,
            start_timestamp: self.start_timestamp,
            end: self.end,
            end_timestamp: self.end_timestamp,
            kind: self.kind,
        }
    }
}

impl Clone for Period {
    fn clone(&self) -> (r: Self)
        ensures
            r@ == self@,
    {
        Period {
            friendly_name: self.friendly_name.clone(),
            start: self.start,
            start_timestamp: self.start_timestamp,
            end: self.end,
            end_timestamp: self.end_timestamp,
            kind: self.kind,
        }
    }
}

impl Period {
    /// A period from `start` to `end` whose absolute instants are not yet
    /// recorded.
    pub fn new(friendly_name: String, start: TimeOfDay, end: TimeOfDay, kind: PeriodType) -> (r:
        Period)
        ensures
            r@ == (PeriodModel {
                friendly_name: friendly_name@,
                start,
                start_timestamp: 0,
                end,
                end_timestamp: 0,
                kind,
            }),
    {
        Period { friendly_name, start, start_timestamp: 0, end, end_timestamp: 0, kind }
    }

    /// Records the absolute instants of the period's start and end,
    /// replacing what was recorded before, where both instants exist;
    /// otherwise the period is left as it was. Everything but the instants is
    /// kept. The result says whether the instants were recorded.
    pub fn record(&mut self, start: Option<i64>, end: Option<i64>) -> (r: bool)
        ensures
            r == (start is Some && end is Some),
            r ==> final(self)@ == (PeriodModel {
                start_timestamp: stamp_of(start->0),
                end_timestamp: stamp_of(end->0),
                ..old(self)@
            }),
            !r ==> final(self)@ == old(self)@,
    {
        match (start, end) {
            (Some(s), Some(e)) => {
                self.start_timestamp = as_stamp(s);
                self.end_timestamp = as_stamp(e);
                true
            },
            _ => false,
        }
    }

    /// Records the absolute instants at which the period starts and ends on
    /// day `day` in the machine's time zone, to the second, and says whether
    /// it did.
    ///
    /// Which instants these are depends on the time zone. In every zone they
    /// are less than a day away from the period's start and end read as UTC
    /// times of that day, and everything but the instants is kept. Nothing
    /// is recorded, and the period is left as it was, where the zone has no
    /// single instant for one of the two times; that is so at least where
    /// `day` is no date or the start or the end is no time of a day.
    pub fn populate(&mut self, day: i32) -> (r: bool)
        ensures
            final(self)@.friendly_name == old(self)@.friendly_name,
            final(self)@.start == old(self)@.start,
            final(self)@.end == old(self)@.end,
            final(self)@.kind == old(self)@.kind,
            !r ==> final(self)@ == old(self)@,
            r ==> is_date(day as int) && old(self).start.secs < 86_400 && old(self).end.secs
                < 86_400,
            r ==> exists|s: i64, e: i64|
                {
                    &&& may_show(day as int, old(self).start.secs as int, s as int)
                    &&& may_show(day as int, old(self).end.secs as int, e as int)
                    &&& final(self)@ == #[trigger] placed(old(self)@, s, e)
                },
    {
        let start = local_instant(day, self.start.hour(), self.start.minute(), self.start.second());
        let end = local_instant(day, self.end.hour(), self.end.minute(), self.end.second());
        let ghost before = self@;
        let done = self.record(start, end);
        proof {
            if done {
                assert(self@ == placed(before, start->0, end->0));
            }
        }
        done
    }
}

/// The period with the instants `start` and `end` recorded as those of its
/// start and its end.
pub open spec fn placed(p: PeriodModel, start: i64, end: i64) -> PeriodModel {
    PeriodModel { start_timestamp: stamp_of(start), end_timestamp: stamp_of(end), ..p }
}

/// An instant as it is recorded on a period: the seconds since 1970-01-01
/// 00:00:00 UTC, counted modulo 2^64.
pub open spec fn stamp_of(instant: i64) -> u64 {
    if instant >= 0 {
        instant as u64
    } else {
        (instant + 0x1_0000_0000_0000_0000) as u64
    }
}

/// Executable form of [`stamp_of`].
pub fn as_stamp(instant: i64) -> (r: u64)
    ensures
        r == stamp_of(instant),
{
    if instant >= 0 {
        instant as u64
    } else {
        let above: i64 = (instant + i64::MAX) + 1;
        above as u64 + 0x8000_0000_0000_0000u64
    }
}

/// The values of a list of periods, in order.
pub open spec fn period_models(periods: Seq<Period>) -> Seq<PeriodModel> {
    Seq::new(periods.len(), |i: int| periods[i]@)
}

/// The value of an optional period.
pub open spec fn optional_model(p: Option<Period>) -> Option<PeriodModel> {
    match p {
        Some(p) => Some(p@),
        None => None,
    }
}

} // verus!
