//! What holds of the periods around a time, of the resolution of dates and
//! of the merging of calendar entries, whatever the schedule.

use vstd::prelude::*;
use crate::calendar::{
    EventModel, IcalEventModel, annotated, has_override, merged_day, with_note, with_override,
};
use crate::pattern::{ScheduleTypeModel, around, gap_period, running_at};
use crate::period::{PeriodModel, PeriodType, TimeOfDay};
use crate::schedule::{
    ResolutionModel, ScheduleError, announces, day_of, first_literal, first_override, literal_of,
    lookup, merged_event, merged_events, merged_span, name_before, named, resolved, span_end,
    typical_of, unique_names, winner,
};

verus! {

/// A day without periods shows no period before, at or after any time.
pub proof fn empty_day_shows_nothing(
    t: TimeOfDay,
    previous: Option<PeriodModel>,
    current: Option<PeriodModel>,
    next: Option<PeriodModel>,
)
    requires
        around(Seq::<PeriodModel>::empty(), t, previous, current, next),
    ensures
        previous is None,
        current is None,
        next is None,
{
}

/// A period that does not end before it starts is the current one at its
/// start and at its end, on a day that holds this period alone.
pub proof fn bounds_belong_to_the_period(
    p: PeriodModel,
    t: TimeOfDay,
    previous: Option<PeriodModel>,
    current: Option<PeriodModel>,
    next: Option<PeriodModel>,
)
    requires
        !p.end.before(p.start),
        t == p.start || t == p.end,
        around(seq![p], t, previous, current, next),
    ensures
        previous is None,
        current == Some(p),
        next is None,
{
    let ps = seq![p];
    assert(running_at(ps[0], t));
}

/// At a time at which no period of the day runs, the current period is the
/// gap between the neighbours: passing time between two periods, the time
/// before school from midnight to the first period, the time after school
/// from the last period to 23:59:59, and nothing on a day without
/// neighbours.
pub proof fn gap_fills_the_time_between(
    ps: Seq<PeriodModel>,
    t: TimeOfDay,
    previous: Option<PeriodModel>,
    current: Option<PeriodModel>,
    next: Option<PeriodModel>,
)
    requires
        around(ps, t, previous, current, next),
        forall|j: int| 0 <= j < ps.len() ==> !running_at(#[trigger] ps[j], t),
    ensures
        current == gap_period(previous, next),
        previous is Some && next is Some ==> current is Some && current->0.kind
            == PeriodType::Passing && current->0.start == previous->0.end && current->0.end
            == next->0.start,
        previous is None && next is Some ==> current is Some && current->0.kind
            == PeriodType::BeforeSchool && current->0.start == TimeOfDay::at(0, 0, 0)
            && current->0.end == next->0.start,
        previous is Some && next is None ==> current is Some && current->0.kind
            == PeriodType::AfterSchool && current->0.start == previous->0.end && current->0.end
            == TimeOfDay::at(23, 59, 59),
        previous is None && next is None ==> current is None,
{
}

/// A pattern that a lookup finds is one of the catalog's, under the name
/// that was looked up.
pub proof fn lookup_finds_an_entry(
    catalog: Seq<(Seq<char>, ScheduleTypeModel)>,
    name: Seq<char>,
    from: int,
)
    requires
        0 <= from,
    ensures
        match lookup(catalog, name, from) {
            Some(t) => exists|i: int|
                from <= i < catalog.len() && (#[trigger] catalog[i]) == (name, t),
            None => forall|i: int| from <= i < catalog.len() ==> (#[trigger] catalog[i]).0 != name,
        },
    decreases catalog.len() - from,
{
    if from < catalog.len() && catalog[from].0 != name {
        lookup_finds_an_entry(catalog, name, from + 1);
    }
}

/// Where annotation `i` is the first from `from` on that names a pattern,
/// its name is the first override.
pub proof fn first_override_is_the_earliest(day: Seq<EventModel>, from: int, i: int)
    requires
        0 <= from <= i < day.len(),
        day[i] is ScheduleOverride,
        forall|j: int| from <= j < i ==> !((#[trigger] day[j]) is ScheduleOverride),
    ensures
        first_override(day, from) == Some(day[i]->ScheduleOverride_0),
    decreases i - from,
{
    if from < i {
        first_override_is_the_earliest(day, from + 1, i);
    }
}

/// Where annotation `i` is the first from `from` on that writes a pattern
/// out, its text is the first literal.
pub proof fn first_literal_is_the_earliest(day: Seq<EventModel>, from: int, i: int)
    requires
        0 <= from <= i < day.len(),
        day[i] is ScheduleLiteral,
        forall|j: int| from <= j < i ==> !((#[trigger] day[j]) is ScheduleLiteral),
    ensures
        first_literal(day, from) == Some(day[i]->ScheduleLiteral_0),
    decreases i - from,
{
    if from < i {
        first_literal_is_the_earliest(day, from + 1, i);
    }
}

/// A day on which no annotation from `from` on names a pattern has no
/// override.
pub proof fn no_override_without_one(day: Seq<EventModel>, from: int)
    requires
        0 <= from,
        forall|j: int| from <= j < day.len() ==> !((#[trigger] day[j]) is ScheduleOverride),
    ensures
        first_override(day, from) is None,
    decreases day.len() - from,
{
    if from < day.len() {
        no_override_without_one(day, from + 1);
    }
}

/// A day on which no annotation from `from` on writes a pattern out has no
/// literal.
pub proof fn no_literal_without_one(day: Seq<EventModel>, from: int)
    requires
        0 <= from,
        forall|j: int| from <= j < day.len() ==> !((#[trigger] day[j]) is ScheduleLiteral),
    ensures
        first_literal(day, from) is None,
    decreases day.len() - from,
{
    if from < day.len() {
        no_literal_without_one(day, from + 1);
    }
}

/// The text of the first literal is that of one of the day's annotations.
pub proof fn first_literal_is_on_the_day(day: Seq<EventModel>, from: int)
    requires
        0 <= from,
    ensures
        match first_literal(day, from) {
            Some(raw) => day.contains(EventModel::ScheduleLiteral(raw)),
            None => true,
        },
    decreases day.len() - from,
{
    if from < day.len() {
        match day[from] {
            EventModel::ScheduleLiteral(raw) => {
            },
            _ => {
                first_literal_is_on_the_day(day, from + 1);
            },
        }
    }
}

/// Every date resolves to one of the catalog's patterns, to a pattern
/// written out on that day, or to an error: never to a pattern that nothing
/// defines.
pub proof fn resolution_is_defined(
    cal: Map<i32, Seq<EventModel>>,
    catalog: Seq<(Seq<char>, ScheduleTypeModel)>,
    typical: Seq<Seq<char>>,
    date: i32,
)
    ensures
        match resolved(cal, catalog, typical, date) {
            Ok(ResolutionModel::Pattern(t)) => exists|i: int|
                0 <= i < catalog.len() && (#[trigger] catalog[i]).1 == t,
            Ok(ResolutionModel::Literal(raw)) => day_of(cal, date).contains(
                EventModel::ScheduleLiteral(raw),
            ),
            Err(_) => true,
        },
{
    let day = day_of(cal, date);
    first_literal_is_on_the_day(day, 0);
    match resolved(cal, catalog, typical, date) {
        Ok(ResolutionModel::Pattern(t)) => {
            let name = choose|name: Seq<char>| lookup(catalog, name, 0) == Some(t);
            lookup_finds_an_entry(catalog, name, 0);
        },
        _ => {},
    }
}

/// The first annotation of a day that names a pattern decides the day's
/// pattern, whatever literals stand before or after it.
pub proof fn override_decides(
    cal: Map<i32, Seq<EventModel>>,
    catalog: Seq<(Seq<char>, ScheduleTypeModel)>,
    typical: Seq<Seq<char>>,
    date: i32,
    i: int,
    name: Seq<char>,
)
    requires
        0 <= i < day_of(cal, date).len(),
        day_of(cal, date)[i] == EventModel::ScheduleOverride(name),
        forall|j: int| 0 <= j < i ==> !((#[trigger] day_of(cal, date)[j]) is ScheduleOverride),
    ensures
        resolved(cal, catalog, typical, date) == named(catalog, name),
{
    first_override_is_the_earliest(day_of(cal, date), 0, i);
}

/// On a day without an annotation that names a pattern, the first pattern
/// written out on the day is the day's pattern.
pub proof fn literal_decides_without_override(
    cal: Map<i32, Seq<EventModel>>,
    catalog: Seq<(Seq<char>, ScheduleTypeModel)>,
    typical: Seq<Seq<char>>,
    date: i32,
    i: int,
    raw: Seq<char>,
)
    requires
        !has_override(day_of(cal, date)),
        0 <= i < day_of(cal, date).len(),
        day_of(cal, date)[i] == EventModel::ScheduleLiteral(raw),
        forall|j: int| 0 <= j < i ==> !((#[trigger] day_of(cal, date)[j]) is ScheduleLiteral),
    ensures
        resolved(cal, catalog, typical, date) == Ok::<ResolutionModel, ScheduleError>(
            ResolutionModel::Literal(raw),
        ),
{
    no_override_without_one(day_of(cal, date), 0);
    first_literal_is_the_earliest(day_of(cal, date), 0, i);
}

/// On a day with neither an override nor a literal, the weekly rotation
/// gives the day's pattern.
pub proof fn rotation_decides_otherwise(
    cal: Map<i32, Seq<EventModel>>,
    catalog: Seq<(Seq<char>, ScheduleTypeModel)>,
    typical: Seq<Seq<char>>,
    date: i32,
)
    requires
        forall|j: int|
            0 <= j < day_of(cal, date).len() ==> (#[trigger] day_of(cal, date)[j]) is SpecialEvent,
    ensures
        resolved(cal, catalog, typical, date) == typical_of(catalog, typical, date),
{
    no_override_without_one(day_of(cal, date), 0);
    no_literal_without_one(day_of(cal, date), 0);
}

/// The calendar after an entry has been applied to the days from `from` up
/// to, not including, `to`: each of these days holds what the entry makes of
/// it, and every other day is as it was. An entry that writes a pattern out
/// reaches the first of the days only.
pub proof fn span_reaches_its_days_only(
    cal: Map<i32, Seq<EventModel>>,
    literal: Option<Seq<char>>,
    winner: Option<Seq<char>>,
    summary: Seq<char>,
    from: int,
    to: int,
)
    requires
        i32::MIN <= from,
        to <= i32::MAX + 1,
    ensures
        merged_span(cal, literal, winner, summary, from, to) == Map::new(
            |d: i32| cal.contains_key(d) || from <= d < reach(literal, from, to),
            |d: i32|
                if from <= d < reach(literal, from, to) {
                    merged_day(day_of(cal, d), literal, winner, summary)
                } else {
                    cal[d]
                },
        ),
    decreases to - from,
{
    if from < to {
        let next = cal.insert(
            from as i32,
            merged_day(day_of(cal, from as i32), literal, winner, summary),
        );
        if literal is None {
            span_reaches_its_days_only(next, literal, winner, summary, from + 1, to);
        }
    }
}

/// The day after the last day that an entry reaches among the days from
/// `from` up to, not including, `to`.
pub open spec fn reach(literal: Option<Seq<char>>, from: int, to: int) -> int {
    if literal is Some && from < to {
        from + 1
    } else {
        to
    }
}

/// An entry that writes no pattern out annotates exactly the days from its
/// start up to, not including, its end: the calendar holds each of them
/// afterwards, and holds no other day that it did not hold before.
pub proof fn event_annotates_its_span(
    cal: Map<i32, Seq<EventModel>>,
    catalog: Seq<(Seq<char>, ScheduleTypeModel)>,
    event: IcalEventModel,
    d: i32,
)
    requires
        event.start is Some,
        event.summary is Some,
        literal_of(event) is None,
    ensures
        merged_event(cal, catalog, event).contains_key(d) <==> cal.contains_key(d)
            || event.start->0 <= d < span_end(event.start->0, event.end),
        !(event.start->0 <= d < span_end(event.start->0, event.end)) ==> day_of(
            merged_event(cal, catalog, event),
            d,
        ) == day_of(cal, d),
{
    let start = event.start->0;
    let summary = event.summary->0;
    span_reaches_its_days_only(
        cal,
        literal_of(event),
        winner(catalog, summary, catalog.len() as int),
        summary,
        start as int,
        span_end(start, event.end),
    );
}

/// Of two names, at most one comes before the other.
pub proof fn name_order_is_one_way(a: Seq<char>, b: Seq<char>, from: int)
    requires
        0 <= from,
        name_before(a, b, from),
    ensures
        !name_before(b, a, from),
    decreases a.len() - from,
{
    if from < a.len() && from < b.len() && (a[from] as u32) == (b[from] as u32) {
        name_order_is_one_way(a, b, from + 1);
    }
}

/// Where `b` does not come before `a`, nor `c` before `b`, `c` does not come
/// before `a`.
pub proof fn name_order_is_transitive(a: Seq<char>, b: Seq<char>, c: Seq<char>, from: int)
    requires
        0 <= from,
        !name_before(b, a, from),
        !name_before(c, b, from),
    ensures
        !name_before(c, a, from),
    decreases a.len() - from,
{
    if from < a.len() && from < b.len() && from < c.len() && (a[from] as u32) == (b[from] as u32)
        && (b[from] as u32) == (c[from] as u32) {
        name_order_is_transitive(a, b, c, from + 1);
    }
}

/// The pattern that a title announces is one whose rule accepts the title,
/// and no pattern whose rule accepts the title has a name that comes after
/// its name: which pattern wins does not depend on the order in which the
/// patterns are listed.
pub proof fn winner_has_the_last_name(
    catalog: Seq<(Seq<char>, ScheduleTypeModel)>,
    summary: Seq<char>,
    n: int,
)
    requires
        0 <= n <= catalog.len(),
    ensures
        match winner(catalog, summary, n) {
            Some(w) => {
                &&& exists|i: int|
                    0 <= i < n && announces((#[trigger] catalog[i]).1, summary) && catalog[i].0
                        == w
                &&& forall|j: int|
                    0 <= j < n && announces((#[trigger] catalog[j]).1, summary) ==> !name_before(
                        w,
                        catalog[j].0,
                        0,
                    )
            },
            None => forall|j: int| 0 <= j < n ==> !announces((#[trigger] catalog[j]).1, summary),
        },
    decreases n,
{
    if n > 0 {
        winner_has_the_last_name(catalog, summary, n - 1);
        let c = catalog[n - 1].0;
        if announces(catalog[n - 1].1, summary) {
            match winner(catalog, summary, n - 1) {
                Some(best) => {
                    if name_before(c, best, 0) {
                        name_order_is_one_way(c, best, 0);
                    } else {
                        assert forall|j: int|
                            0 <= j < n && announces((#[trigger] catalog[j]).1, summary) implies
                            !name_before(c, catalog[j].0, 0) by {
                            if j < n - 1 {
                                name_order_is_transitive(catalog[j].0, best, c, 0);
                            } else {
                                name_is_not_before_itself(c, 0);
                            }
                        }
                    }
                },
                None => {
                    name_is_not_before_itself(c, 0);
                },
            }
        }
    }
}

/// Where no name stands twice, the name that a title announces is that of
/// one pattern only, the one that a lookup of the name finds, and the rule
/// of that pattern accepts the title: no entry that another of its name
/// hides decides the winner.
pub proof fn winner_is_found_by_its_name(
    catalog: Seq<(Seq<char>, ScheduleTypeModel)>,
    summary: Seq<char>,
)
    requires
        unique_names(catalog),
    ensures
        match winner(catalog, summary, catalog.len() as int) {
            Some(w) => exists|i: int|
                0 <= i < catalog.len() && (#[trigger] catalog[i]).0 == w && announces(
                    catalog[i].1,
                    summary,
                ) && lookup(catalog, w, 0) == Some(catalog[i].1),
            None => forall|i: int|
                0 <= i < catalog.len() ==> !announces((#[trigger] catalog[i]).1, summary),
        },
{
    winner_has_the_last_name(catalog, summary, catalog.len() as int);
    match winner(catalog, summary, catalog.len() as int) {
        Some(w) => {
            let i = choose|i: int|
                0 <= i < catalog.len() && announces((#[trigger] catalog[i]).1, summary)
                    && catalog[i].0 == w;
            lookup_finds_an_entry(catalog, w, 0);
            assert(lookup(catalog, w, 0) == Some(catalog[i].1));
        },
        None => {},
    }
}

/// Where no name stands twice, every pattern is found by its name.
pub proof fn unique_names_find_every_pattern(
    catalog: Seq<(Seq<char>, ScheduleTypeModel)>,
    i: int,
)
    requires
        unique_names(catalog),
        0 <= i < catalog.len(),
    ensures
        lookup(catalog, catalog[i].0, 0) == Some(catalog[i].1),
{
    lookup_finds_an_entry(catalog, catalog[i].0, 0);
}

/// No name comes before itself.
pub proof fn name_is_not_before_itself(a: Seq<char>, from: int)
    requires
        0 <= from,
    ensures
        !name_before(a, a, from),
    decreases a.len() - from,
{
    if from < a.len() {
        name_is_not_before_itself(a, from + 1);
    }
}

/// To apply a title to a day twice is to apply it once.
pub proof fn annotating_twice_is_once(
    day: Seq<EventModel>,
    winner: Option<Seq<char>>,
    summary: Seq<char>,
)
    ensures
        annotated(annotated(day, winner, summary), winner, summary) == annotated(
            day,
            winner,
            summary,
        ),
{
    match winner {
        Some(name) => {
            let once = with_override(day, name);
            if has_override(day) {
                let i = choose|i: int| 0 <= i < day.len() && (#[trigger] day[i]) is ScheduleOverride;
                assert(once[i] is ScheduleOverride);
            } else {
                assert(once[day.len() as int] is ScheduleOverride);
            }
        },
        None => {
            let once = with_note(day, summary);
            if !day.contains(EventModel::SpecialEvent(summary)) {
                assert(once[day.len() as int] == EventModel::SpecialEvent(summary));
            }
        },
    }
}

/// To apply twice an entry that writes no pattern out is to apply it once:
/// no note and no override is doubled.
pub proof fn merging_twice_is_once(
    cal: Map<i32, Seq<EventModel>>,
    catalog: Seq<(Seq<char>, ScheduleTypeModel)>,
    event: IcalEventModel,
)
    requires
        literal_of(event) is None,
    ensures
        merged_event(merged_event(cal, catalog, event), catalog, event) == merged_event(
            cal,
            catalog,
            event,
        ),
{
    match (event.start, event.summary) {
        (Some(start), Some(summary)) => {
            let w = winner(catalog, summary, catalog.len() as int);
            let to = span_end(start, event.end);
            let once = merged_event(cal, catalog, event);
            span_reaches_its_days_only(cal, None, w, summary, start as int, to);
            span_reaches_its_days_only(once, None, w, summary, start as int, to);
            assert forall|d: i32| start <= d < to implies merged_day(
                day_of(once, d),
                None,
                w,
                summary,
            ) == once[d] by {
                annotating_twice_is_once(day_of(cal, d), w, summary);
            }
        },
        _ => {},
    }
}

/// The entry leaves its title as a note, if it leaves anything: it writes
/// no pattern out, and its title announces none.
pub open spec fn leaves_a_note(
    catalog: Seq<(Seq<char>, ScheduleTypeModel)>,
    event: IcalEventModel,
) -> bool {
    literal_of(event) is None && match event.summary {
        Some(summary) => winner(catalog, summary, catalog.len() as int) is None,
        None => true,
    }
}

/// Every day of the entry holds the entry's title as a note.
pub open spec fn noted(cal: Map<i32, Seq<EventModel>>, event: IcalEventModel) -> bool {
    match (event.start, event.summary) {
        (Some(start), Some(summary)) => forall|d: i32|
            start <= d < span_end(start, event.end) ==> #[trigger] cal.contains_key(d) && cal[d].contains(
                EventModel::SpecialEvent(summary),
            ),
        _ => true,
    }
}

/// A day holds the note once the note has been put on it, and keeps every
/// annotation that it held.
pub proof fn note_is_on_the_day(day: Seq<EventModel>, text: Seq<char>, other: EventModel)
    ensures
        with_note(day, text).contains(EventModel::SpecialEvent(text)),
        day.contains(other) ==> with_note(day, text).contains(other),
{
    let after = with_note(day, text);
    if !day.contains(EventModel::SpecialEvent(text)) {
        assert(after[day.len() as int] == EventModel::SpecialEvent(text));
    }
    if day.contains(other) {
        let i = choose|i: int| 0 <= i < day.len() && day[i] == other;
        assert(after[i] == other);
    }
}

/// After an entry that leaves a note, each of its days holds the note, and
/// the days of any other entry that held that entry's note hold it still.
pub proof fn notes_are_left_and_kept(
    cal: Map<i32, Seq<EventModel>>,
    catalog: Seq<(Seq<char>, ScheduleTypeModel)>,
    event: IcalEventModel,
    other: IcalEventModel,
)
    requires
        leaves_a_note(catalog, event),
    ensures
        noted(merged_event(cal, catalog, event), event),
        noted(cal, other) ==> noted(merged_event(cal, catalog, event), other),
{
    match (event.start, event.summary) {
        (Some(start), Some(summary)) => {
            let to = span_end(start, event.end);
            let after = merged_event(cal, catalog, event);
            span_reaches_its_days_only(cal, None, None, summary, start as int, to);
            assert forall|d: i32| start <= d < to implies #[trigger] after.contains_key(d)
                && after[d].contains(EventModel::SpecialEvent(summary)) by {
                note_is_on_the_day(day_of(cal, d), summary, EventModel::SpecialEvent(summary));
            }
            match (other.start, other.summary) {
                (Some(other_start), Some(other_summary)) => {
                    if noted(cal, other) {
                        assert forall|d: i32|
                            other_start <= d < span_end(other_start, other.end) implies
                            #[trigger] after.contains_key(d) && after[d].contains(
                            EventModel::SpecialEvent(other_summary),
                        ) by {
                            assert(cal.contains_key(d));
                            note_is_on_the_day(
                                day_of(cal, d),
                                summary,
                                EventModel::SpecialEvent(other_summary),
                            );
                        }
                    }
                },
                _ => {},
            }
        },
        _ => {},
    }
}

/// An entry that leaves a note changes nothing in a calendar whose days hold
/// that note already.
pub proof fn noted_entry_changes_nothing(
    cal: Map<i32, Seq<EventModel>>,
    catalog: Seq<(Seq<char>, ScheduleTypeModel)>,
    event: IcalEventModel,
)
    requires
        leaves_a_note(catalog, event),
        noted(cal, event),
    ensures
        merged_event(cal, catalog, event) == cal,
{
    match (event.start, event.summary) {
        (Some(start), Some(summary)) => {
            let to = span_end(start, event.end);
            span_reaches_its_days_only(cal, None, None, summary, start as int, to);
            assert forall|d: i32| start <= d < to implies cal.contains_key(d) && merged_day(
                day_of(cal, d),
                None,
                None,
                summary,
            ) == cal[d] by {
                assert(cal.contains_key(d));
            }
            assert(merged_event(cal, catalog, event) =~= cal);
        },
        _ => {},
    }
}

/// Entries that leave notes keep the notes that the calendar holds.
pub proof fn notes_outlast_a_list(
    cal: Map<i32, Seq<EventModel>>,
    catalog: Seq<(Seq<char>, ScheduleTypeModel)>,
    events: Seq<IcalEventModel>,
    from: int,
    other: IcalEventModel,
)
    requires
        0 <= from,
        forall|i: int| 0 <= i < events.len() ==> leaves_a_note(catalog, #[trigger] events[i]),
        noted(cal, other),
    ensures
        noted(merged_events(cal, catalog, events, from), other),
    decreases events.len() - from,
{
    if from < events.len() {
        notes_are_left_and_kept(cal, catalog, events[from], other);
        notes_outlast_a_list(merged_event(cal, catalog, events[from]), catalog, events, from + 1, other);
    }
}

/// After a list of entries that leave notes, the days of each of them hold
/// its note.
pub proof fn list_leaves_its_notes(
    cal: Map<i32, Seq<EventModel>>,
    catalog: Seq<(Seq<char>, ScheduleTypeModel)>,
    events: Seq<IcalEventModel>,
    from: int,
    i: int,
)
    requires
        0 <= from <= i < events.len(),
        forall|i: int| 0 <= i < events.len() ==> leaves_a_note(catalog, #[trigger] events[i]),
    ensures
        noted(merged_events(cal, catalog, events, from), events[i]),
    decreases i - from,
{
    let next = merged_event(cal, catalog, events[from]);
    if from == i {
        notes_are_left_and_kept(cal, catalog, events[i], events[i]);
        notes_outlast_a_list(next, catalog, events, from + 1, events[i]);
    } else {
        list_leaves_its_notes(next, catalog, events, from + 1, i);
    }
}

/// A list of entries that leave notes changes nothing in a calendar whose
/// days hold all these notes already.
pub proof fn noted_list_changes_nothing(
    cal: Map<i32, Seq<EventModel>>,
    catalog: Seq<(Seq<char>, ScheduleTypeModel)>,
    events: Seq<IcalEventModel>,
    from: int,
)
    requires
        0 <= from,
        forall|i: int| 0 <= i < events.len() ==> leaves_a_note(catalog, #[trigger] events[i]),
        forall|i: int| 0 <= i < events.len() ==> noted(cal, #[trigger] events[i]),
    ensures
        merged_events(cal, catalog, events, from) == cal,
    decreases events.len() - from,
{
    if from < events.len() {
        noted_entry_changes_nothing(cal, catalog, events[from]);
        noted_list_changes_nothing(cal, catalog, events, from + 1);
    }
}

/// To apply twice a list of entries that leave notes is to apply it once:
/// the second time no day gains an annotation, so no note stands twice on
/// account of it.
pub proof fn merging_a_list_twice_is_once(
    cal: Map<i32, Seq<EventModel>>,
    catalog: Seq<(Seq<char>, ScheduleTypeModel)>,
    events: Seq<IcalEventModel>,
)
    requires
        forall|i: int| 0 <= i < events.len() ==> leaves_a_note(catalog, #[trigger] events[i]),
    ensures
        merged_events(merged_events(cal, catalog, events, 0), catalog, events, 0) == merged_events(
            cal,
            catalog,
            events,
            0,
        ),
{
    let once = merged_events(cal, catalog, events, 0);
    assert forall|i: int| 0 <= i < events.len() implies noted(once, #[trigger] events[i]) by {
        list_leaves_its_notes(cal, catalog, events, 0, i);
    }
    noted_list_changes_nothing(once, catalog, events, 0);
}

} // verus!
