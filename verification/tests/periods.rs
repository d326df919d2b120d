use bell_schedule::outside::{FIRST_DAY, LAST_DAY};
use bell_schedule::pattern::ScheduleType;
use bell_schedule::period::{as_stamp, Period, PeriodType, TimeOfDay};

fn hms(h: u32, m: u32, s: u32) -> TimeOfDay {
    TimeOfDay::from_hms(h, m, s).unwrap()
}

fn class(name: &str, start: TimeOfDay, end: TimeOfDay, slot: usize) -> Period {
    Period::new(name.to_string(), start, end, PeriodType::Class(slot))
}

fn two_classes() -> ScheduleType {
    ScheduleType {
        friendly_name: "Normal Day".to_string(),
        periods: vec![
            class("First", hms(8, 0, 0), hms(8, 50, 0), 0),
            class("Second", hms(9, 0, 0), hms(9, 50, 0), 1),
        ],
        regex: None,
    }
}

#[test]
fn from_hms_counts_seconds() {
    assert_eq!(TimeOfDay::from_hms(8, 0, 0), Some(TimeOfDay { secs: 28800, frac: 0 }));
    assert_eq!(TimeOfDay::from_hms(23, 59, 59), Some(TimeOfDay { secs: 86399, frac: 0 }));
    assert_eq!(TimeOfDay::from_hms(0, 0, 0), Some(TimeOfDay::midnight()));
    assert_eq!(TimeOfDay::last_second(), TimeOfDay { secs: 86399, frac: 0 });
}

#[test]
fn from_hms_refuses_components_out_of_range() {
    assert_eq!(TimeOfDay::from_hms(24, 0, 0), None);
    assert_eq!(TimeOfDay::from_hms(0, 60, 0), None);
    assert_eq!(TimeOfDay::from_hms(0, 0, 60), None);
}

#[test]
fn times_order_by_seconds_then_fraction() {
    let a = TimeOfDay { secs: 10, frac: 5 };
    let b = TimeOfDay { secs: 10, frac: 6 };
    let c = TimeOfDay { secs: 11, frac: 0 };
    assert!(a.is_before(&b));
    assert!(b.is_before(&c));
    assert!(a.is_before(&c));
    assert!(!b.is_before(&a));
    assert!(!a.is_before(&a));
}

#[test]
fn passing_between_two_periods() {
    let r = two_classes().at_time(hms(8, 55, 0));
    assert_eq!(r[0], Some(class("First", hms(8, 0, 0), hms(8, 50, 0), 0)));
    assert_eq!(
        r[1],
        Some(Period {
            friendly_name: "Passing".to_string(),
            start: hms(8, 50, 0),
            start_timestamp: 0,
            end: hms(9, 0, 0),
            end_timestamp: 0,
            kind: PeriodType::Passing,
        })
    );
    assert_eq!(r[2], Some(class("Second", hms(9, 0, 0), hms(9, 50, 0), 1)));
}

#[test]
fn before_school_ahead_of_the_first_period() {
    let r = two_classes().at_time(hms(7, 0, 0));
    assert_eq!(r[0], None);
    assert_eq!(
        r[1],
        Some(Period {
            friendly_name: "Before school".to_string(),
            start: hms(0, 0, 0),
            start_timestamp: 0,
            end: hms(8, 0, 0),
            end_timestamp: 0,
            kind: PeriodType::BeforeSchool,
        })
    );
    assert_eq!(r[2], Some(class("First", hms(8, 0, 0), hms(8, 50, 0), 0)));
}

#[test]
fn after_school_behind_the_last_period() {
    let r = two_classes().at_time(hms(10, 0, 0));
    assert_eq!(r[0], Some(class("Second", hms(9, 0, 0), hms(9, 50, 0), 1)));
    assert_eq!(
        r[1],
        Some(Period {
            friendly_name: "After School".to_string(),
            start: hms(9, 50, 0),
            start_timestamp: 0,
            end: hms(23, 59, 59),
            end_timestamp: 0,
            kind: PeriodType::AfterSchool,
        })
    );
    assert_eq!(r[2], None);
}

#[test]
fn both_ends_of_a_period_belong_to_it() {
    let day = ScheduleType {
        friendly_name: "One".to_string(),
        periods: vec![class("First", hms(8, 0, 0), hms(8, 50, 0), 0)],
        regex: None,
    };
    let first = Some(class("First", hms(8, 0, 0), hms(8, 50, 0), 0));
    assert_eq!(day.at_time(hms(8, 0, 0)), [None, first.clone(), None]);
    assert_eq!(day.at_time(hms(8, 50, 0)), [None, first.clone(), None]);
    assert_eq!(day.at_time(hms(8, 25, 0)), [None, first, None]);
}

#[test]
fn a_fraction_of_a_second_past_the_end_is_outside() {
    let day = two_classes();
    let r = day.at_time(TimeOfDay { secs: 8 * 3600 + 50 * 60, frac: 1 });
    assert_eq!(r[0], Some(class("First", hms(8, 0, 0), hms(8, 50, 0), 0)));
    assert_eq!(r[1].as_ref().map(|p| p.kind), Some(PeriodType::Passing));
}

#[test]
fn a_day_without_periods_has_nothing_around_any_time() {
    let day = ScheduleType { friendly_name: "No School".to_string(), periods: vec![], regex: None };
    assert_eq!(day.at_time(hms(0, 0, 0)), [None, None, None]);
    assert_eq!(day.at_time(hms(12, 0, 0)), [None, None, None]);
    assert_eq!(day.at_time(hms(23, 59, 59)), [None, None, None]);
}

#[test]
fn the_list_need_not_be_in_order_of_time() {
    let day = ScheduleType {
        friendly_name: "Mixed".to_string(),
        periods: vec![
            class("Third", hms(10, 0, 0), hms(10, 50, 0), 2),
            class("First", hms(8, 0, 0), hms(8, 50, 0), 0),
            class("Fourth", hms(11, 0, 0), hms(11, 50, 0), 3),
            class("Second", hms(9, 0, 0), hms(9, 50, 0), 1),
        ],
        regex: None,
    };
    let r = day.at_time(hms(9, 55, 0));
    assert_eq!(r[0], Some(class("Second", hms(9, 0, 0), hms(9, 50, 0), 1)));
    assert_eq!(r[2], Some(class("Third", hms(10, 0, 0), hms(10, 50, 0), 2)));
    assert_eq!(r[1].as_ref().map(|p| (p.start, p.end)), Some((hms(9, 50, 0), hms(10, 0, 0))));
}

#[test]
fn of_periods_that_overlap_the_last_listed_is_current() {
    let day = ScheduleType {
        friendly_name: "Overlap".to_string(),
        periods: vec![
            class("A", hms(8, 0, 0), hms(9, 0, 0), 0),
            class("B", hms(8, 30, 0), hms(9, 30, 0), 1),
        ],
        regex: None,
    };
    let r = day.at_time(hms(8, 45, 0));
    assert_eq!(r[1], Some(class("B", hms(8, 30, 0), hms(9, 30, 0), 1)));
}

#[test]
fn of_neighbours_that_tie_the_first_listed_is_kept() {
    let day = ScheduleType {
        friendly_name: "Ties".to_string(),
        periods: vec![
            class("A", hms(8, 0, 0), hms(9, 0, 0), 0),
            class("B", hms(8, 30, 0), hms(9, 0, 0), 1),
            class("C", hms(11, 0, 0), hms(12, 0, 0), 2),
            class("D", hms(11, 0, 0), hms(11, 30, 0), 3),
        ],
        regex: None,
    };
    let r = day.at_time(hms(10, 0, 0));
    assert_eq!(r[0].as_ref().map(|p| p.friendly_name.as_str()), Some("A"));
    assert_eq!(r[2].as_ref().map(|p| p.friendly_name.as_str()), Some("C"));
}

#[test]
fn first_class_skips_what_is_no_class() {
    let day = ScheduleType {
        friendly_name: "Late Start".to_string(),
        periods: vec![
            Period::new("Support".to_string(), hms(8, 0, 0), hms(8, 30, 0), PeriodType::AMSupport),
            Period::new("Break".to_string(), hms(8, 30, 0), hms(8, 40, 0), PeriodType::Break),
            class("Third", hms(8, 40, 0), hms(9, 30, 0), 2),
            class("Fourth", hms(9, 40, 0), hms(10, 30, 0), 3),
        ],
        regex: None,
    };
    assert_eq!(day.first_class(), Some(class("Third", hms(8, 40, 0), hms(9, 30, 0), 2)));
}

#[test]
fn first_class_of_a_day_without_classes_is_none() {
    let day = ScheduleType {
        friendly_name: "Lunch Only".to_string(),
        periods: vec![Period::new("Lunch".to_string(), hms(12, 0, 0), hms(13, 0, 0), PeriodType::Lunch)],
        regex: None,
    };
    assert_eq!(day.first_class(), None);
}

#[test]
fn record_keeps_the_rest() {
    let mut p = class("First", hms(8, 0, 0), hms(8, 50, 0), 0);
    assert_eq!((p.start_timestamp, p.end_timestamp), (0, 0));
    assert!(p.record(Some(1_704_096_000), Some(1_704_099_000)));
    assert_eq!(
        p,
        Period {
            friendly_name: "First".to_string(),
            start: hms(8, 0, 0),
            start_timestamp: 1_704_096_000,
            end: hms(8, 50, 0),
            end_timestamp: 1_704_099_000,
            kind: PeriodType::Class(0),
        }
    );
}

#[test]
fn record_needs_both_instants() {
    let mut p = class("First", hms(8, 0, 0), hms(8, 50, 0), 0);
    assert!(p.record(Some(7), Some(-1)));
    assert_eq!((p.start_timestamp, p.end_timestamp), (7, u64::MAX));
    let before = p.clone();
    assert!(!p.record(Some(9), None));
    assert_eq!(p, before);
    assert!(!p.record(None, Some(9)));
    assert_eq!(p, before);
    assert!(!p.record(None, None));
    assert_eq!(p, before);
}

#[test]
fn instants_before_1970_wrap() {
    assert_eq!(as_stamp(0), 0);
    assert_eq!(as_stamp(1_704_096_000), 1_704_096_000);
    assert_eq!(as_stamp(i64::MAX), 9_223_372_036_854_775_807);
    assert_eq!(as_stamp(-1), u64::MAX);
    assert_eq!(as_stamp(-86_400), u64::MAX - 86_399);
    assert_eq!(as_stamp(i64::MIN), 9_223_372_036_854_775_808);
}

#[test]
fn hour_minute_and_second_of_a_time() {
    let t = hms(13, 7, 42);
    assert_eq!((t.hour(), t.minute(), t.second()), (13, 7, 42));
    let last = TimeOfDay::last_second();
    assert_eq!((last.hour(), last.minute(), last.second()), (23, 59, 59));
}

#[test]
fn populate_places_the_period_on_a_day() {
    // 2024-01-15: day 738900, and 1705276800 seconds from 1970 at midnight UTC.
    let mut p = class("First", hms(8, 0, 0), hms(8, 50, 0), 0);
    assert!(p.populate(738_900));
    assert_eq!(p.end_timestamp - p.start_timestamp, 3000);
    let utc: u64 = 1_705_276_800 + 8 * 3600;
    assert!(p.start_timestamp + 86_400 > utc && p.start_timestamp < utc + 86_400);
    let utc_end: u64 = 1_705_276_800 + 8 * 3600 + 50 * 60;
    assert!(p.end_timestamp + 86_400 > utc_end && p.end_timestamp < utc_end + 86_400);
    assert_eq!((p.friendly_name.as_str(), p.start, p.end, p.kind), ("First", hms(8, 0, 0), hms(8, 50, 0), PeriodType::Class(0)));
}

#[test]
fn populate_places_the_last_second_of_a_day() {
    // 1970-01-02: day 719164, one day after the start of the count.
    let mut p = class("Late", hms(0, 0, 0), TimeOfDay::last_second(), 0);
    assert!(p.populate(719_164));
    assert_eq!(p.end_timestamp - p.start_timestamp, 86_399);
    assert!(p.start_timestamp > 0 && p.start_timestamp < 2 * 86_400);
}

#[test]
fn populate_needs_a_date_and_times_of_a_day() {
    let fresh = class("First", hms(8, 0, 0), hms(8, 50, 0), 0);
    for day in [FIRST_DAY - 1, LAST_DAY + 1, i32::MIN, i32::MAX] {
        let mut p = fresh.clone();
        assert!(!p.populate(day));
        assert_eq!(p, fresh);
    }
    let late = class("Odd", hms(8, 0, 0), TimeOfDay { secs: 86_400, frac: 0 }, 0);
    let mut p = late.clone();
    assert!(!p.populate(738_900));
    assert_eq!(p, late);
}

#[test]
fn populate_leaves_alone_what_it_cannot_place() {
    let mut p = class("Odd", TimeOfDay { secs: 90_000, frac: 0 }, hms(8, 50, 0), 0);
    assert!(p.record(Some(5), Some(6)));
    let before = p.clone();
    assert!(!p.populate(738_900));
    assert_eq!(p, before);
    let mut q = class("First", hms(8, 0, 0), hms(8, 50, 0), 0);
    assert!(!q.populate(i32::MAX));
    assert_eq!(q, class("First", hms(8, 0, 0), hms(8, 50, 0), 0));
}

#[test]
fn clones_are_equal() {
    let day = two_classes();
    assert_eq!(day.clone(), day);
    let p = class("First", hms(8, 0, 0), hms(8, 50, 0), 0);
    assert_eq!(p.clone(), p);
}
