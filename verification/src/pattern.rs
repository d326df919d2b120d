//! Day patterns: a named list of periods, and the periods around a time of day.

use vstd::prelude::*;
use crate::period::{Period, PeriodModel, PeriodType, TimeOfDay, period_models, optional_model};

verus! {

/// One kind of day: its periods, and the rule by which calendar entries
/// announce it.
#[derive(Debug, PartialEq, Eq)]
pub struct ScheduleType {
    /// A name for display, like "No School".
    pub friendly_name: String,
    /// The periods of the day, in the order they were written down.
    pub periods: Vec<Period>,
    /// The regular expression that the summary of a calendar entry for such a
    /// day matches, if the pattern can be announced that way.
    pub regex: Option<String>,
}

/// The mathematical value of a [`ScheduleType`].
pub struct ScheduleTypeModel {
    pub friendly_name: Seq<char>,
    pub periods: Seq<PeriodModel>,
    pub regex: Option<Seq<char>>,
}

impl View for ScheduleType {
    type V = ScheduleTypeModel;

    open spec fn view(&self) -> ScheduleTypeModel {
        ScheduleTypeModel {
            friendly_name: self.friendly_name@,
            periods: period_models(self.periods@),
            regex: match self.regex {
                Some(r) => Some(r@),
                None => None,
            },
        }
    }
}

/// The period is over at `t`.
pub open spec fn ends_before(p: PeriodModel, t: TimeOfDay) -> bool {
    p.end.before(t)
}

/// The period is not over at `t` and has not begun.
pub open spec fn starts_after(p: PeriodModel, t: TimeOfDay) -> bool {
    !p.end.before(t) && t.before(p.start)
}

/// The period is running at `t`; both of its ends count.
pub open spec fn running_at(p: PeriodModel, t: TimeOfDay) -> bool {
    !p.end.before(t) && !t.before(p.start)
}

/// Among the first `n` periods, `i` is the one that ended last before `t`;
/// of several that ended together, the earliest in the list.
pub open spec fn latest_ended(ps: Seq<PeriodModel>, t: TimeOfDay, n: int, i: int) -> bool {
    &&& 0 <= i < n
    &&& ends_before(ps[i], t)
    &&& forall|j: int| 0 <= j < n && ends_before(#[trigger] ps[j], t) ==> !ps[i].end.before(ps[j].end)
    &&& forall|j: int| 0 <= j < i && ends_before(#[trigger] ps[j], t) ==> ps[j].end.before(ps[i].end)
}

/// Among the first `n` periods, `i` is the one that starts first after `t`;
/// of several that start together, the earliest in the list.
pub open spec fn earliest_upcoming(ps: Seq<PeriodModel>, t: TimeOfDay, n: int, i: int) -> bool {
    &&& 0 <= i < n
    &&& starts_after(ps[i], t)
    &&& forall|j: int| 0 <= j < n && starts_after(#[trigger] ps[j], t) ==> !ps[j].start.before(ps[i].start)
    &&& forall|j: int| 0 <= j < i && starts_after(#[trigger] ps[j], t) ==> ps[i].start.before(ps[j].start)
}

/// Among the first `n` periods, `i` is the last in the list that runs at `t`.
pub open spec fn last_running(ps: Seq<PeriodModel>, t: TimeOfDay, n: int, i: int) -> bool {
    &&& 0 <= i < n
    &&& running_at(ps[i], t)
    &&& forall|j: int| i < j < n ==> !running_at(#[trigger] ps[j], t)
}

/// The period that stands for a time at which no listed period runs: the
/// passing time between the neighbours, the time before the first period, or
/// the time after the last one. With no neighbour there is none.
pub open spec fn gap_period(previous: Option<PeriodModel>, next: Option<PeriodModel>) -> Option<
    PeriodModel,
> {
    match (previous, next) {
        (Some(p), Some(n)) => Some(
            PeriodModel {
                friendly_name: "Passing"@,
                start: p.end,
                start_timestamp: 0,
                end: n.start,
                end_timestamp: 0,
                kind: PeriodType::Passing,
            },
        ),
        (None, Some(n)) => Some(
            PeriodModel {
                friendly_name: "Before school"@,
                start: TimeOfDay::at(0, 0, 0),
                start_timestamp: 0,
                end: n.start,
                end_timestamp: 0,
                kind: PeriodType::BeforeSchool,
            },
        ),
        (Some(p), None) => Some(
            PeriodModel {
                friendly_name: "After School"@,
                start: p.end,
                start_timestamp: 0,
                end: TimeOfDay::at(23, 59, 59),
                end_timestamp: 0,
                kind: PeriodType::AfterSchool,
            },
        ),
        (None, None) => None,
    }
}

/// `previous`, `current` and `next` are what a day of periods `ps` shows at
/// time `t`.
pub open spec fn around(
    ps: Seq<PeriodModel>,
    t: TimeOfDay,
    previous: Option<PeriodModel>,
    current: Option<PeriodModel>,
    next: Option<PeriodModel>,
) -> bool {
    let n = ps.len() as int;
    &&& match previous {
        Some(p) => exists|i: int| latest_ended(ps, t, n, i) && ps[i] == p,
        None => forall|j: int| 0 <= j < n ==> !ends_before(#[trigger] ps[j], t),
    }
    &&& match next {
        Some(p) => exists|i: int| earliest_upcoming(ps, t, n, i) && ps[i] == p,
        None => forall|j: int| 0 <= j < n ==> !starts_after(#[trigger] ps[j], t),
    }
    &&& if exists|j: int| 0 <= j < n && running_at(#[trigger] ps[j], t) {
        exists|i: int| last_running(ps, t, n, i) && current == Some(ps[i])
    } else {
        current == gap_period(previous, next)
    }
}

impl Clone for ScheduleType {
    fn clone(&self) -> (r: Self)
        ensures
            r@ == self@,
    {
        let mut periods: Vec<Period> = Vec::new();
        let mut k: usize = 0;
        while k < self.periods.len()
            invariant
                k <= self.periods.len(),
                periods.len() == k,
                forall|j: int| 0 <= j < k ==> periods[j]@ == self.periods[j]@,
            decreases self.periods.len() - k,
        {
            periods.push(self.periods[k].clone());
            k += 1;
        }
        let regex = match &self.regex {
            Some(r) => Some(r.clone()),
            None => None,
        };
        let r = ScheduleType { friendly_name: self.friendly_name.clone(), periods, regex };
        assert(r@.periods =~= self@.periods);
        r
    }
}

impl ScheduleType {
    /// The periods before, at and after `time`, in that order.
    ///
    /// The first is the period that ended last before `time`, the third the
    /// one that starts first after it. The second is the period running at
    /// `time` (the last in the list, if several do); where none runs, it is
    /// the gap between the neighbours. A day without periods has none of
    /// the three.
    pub fn at_time(&self, time: TimeOfDay) -> (r: [Option<Period>; 3])
        ensures
            around(
                self@.periods,
                time,
                optional_model(r[0]),
                optional_model(r[1]),
                optional_model(r[2]),
            ),
            self@.periods.len() == 0 ==> r[0] is None && r[1] is None && r[2] is None,
    {
        let ghost ps = self@.periods;
        let n = self.periods.len();
        let mut before: Option<usize> = None;
        let mut current: Option<usize> = None;
        let mut next: Option<usize> = None;
        let mut k: usize = 0;
        while k < n
            invariant
                k <= n,
                n == self.periods.len(),
                ps == self@.periods,
                ps.len() == n,
                match before {
                    Some(i) => latest_ended(ps, time, k as int, i as int),
                    None => forall|j: int| 0 <= j < k ==> !ends_before(#[trigger] ps[j], time),
                },
                match next {
                    Some(i) => earliest_upcoming(ps, time, k as int, i as int),
                    None => forall|j: int| 0 <= j < k ==> !starts_after(#[trigger] ps[j], time),
                },
                match current {
                    Some(i) => last_running(ps, time, k as int, i as int),
                    None => forall|j: int| 0 <= j < k ==> !running_at(#[trigger] ps[j], time),
                },
            decreases n - k,
        {
            let period = &self.periods[k];
            if period.end.is_before(&time) {
                match before {
                    Some(b) => {
                        if self.periods[b].end.is_before(&period.end) {
                            before = Some(k);
                        }
                    },
                    None => {
                        before = Some(k);
                    },
                }
            } else if time.is_before(&period.start) {
                match next {
                    Some(b) => {
                        if period.start.is_before(&self.periods[b].start) {
                            next = Some(k);
                        }
                    },
                    None => {
                        next = Some(k);
                    },
                }
            } else {
                current = Some(k);
            }
            k += 1;
        }
        let before_period: Option<Period> = match before {
            Some(i) => Some(self.periods[i].clone()),
            None => None,
        };
        let next_period: Option<Period> = match next {
            Some(i) => Some(self.periods[i].clone()),
            None => None,
        };
        let current_period: Option<Period> = match current {
            Some(i) => Some(self.periods[i].clone()),
            None => match (&before_period, &next_period) {
                (Some(b), Some(x)) => Some(
                    Period::new("Passing".to_string(), b.end, x.start, PeriodType::Passing),
                ),
                (None, Some(x)) => Some(
                    Period::new(
                        "Before school".to_string(),
                        TimeOfDay::midnight(),
                        x.start,
                        PeriodType::BeforeSchool,
                    ),
                ),
                (Some(b), None) => Some(
                    Period::new(
                        "After School".to_string(),
                        b.end,
                        TimeOfDay::last_second(),
                        PeriodType::AfterSchool,
                    ),
                ),
                (None, None) => None,
            },
        };
        [before_period, current_period, next_period]
    }

    /// The first period of the list that is a class, if there is one.
    pub fn first_class(&self) -> (r: Option<Period>)
        ensures
            match r {
                Some(p) => exists|i: int|
                    0 <= i < self@.periods.len() && self@.periods[i] == p@
                        && self@.periods[i].kind is Class && forall|j: int|
                        0 <= j < i ==> !((#[trigger] self@.periods[j]).kind is Class),
                None => forall|j: int|
                    0 <= j < self@.periods.len() ==> !((#[trigger] self@.periods[j]).kind is Class),
            },
    {
        let mut k: usize = 0;
        while k < self.periods.len()
            invariant
                k <= self.periods.len(),
                forall|j: int| 0 <= j < k ==> !((#[trigger] self@.periods[j]).kind is Class),
            decreases self.periods.len() - k,
        {
            assert(self.periods[k as int]@ == self@.periods[k as int]);
            match self.periods[k].kind {
                PeriodType::Class(_) => {
                    return Some(self.periods[k].clone());
                },
                _ => {},
            }
            k += 1;
        }
        None
    }
}

} // verus!
