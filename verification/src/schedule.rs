//! The schedule of a school: its day patterns, its weekly rotation and its
//! calendar of annotated days; how calendar entries are merged into it, and
//! which pattern a date follows.

use std::collections::HashMap;
use vstd::prelude::*;
use vstd::std_specs::hash::*;
use vstd::string::StrSliceExecFns;
use crate::calendar::{
    Event, EventModel, IcalEvent, IcalEventModel, annotate_day, event_models, ical_models,
    literal_payload, literal_text, merged_day, text_of,
};
use crate::outside::{
    FIRST_DAY, LAST_DAY, is_date, local_now, regex_compiles, regex_verdict, rule_matches,
    weekday_from_sunday, weekday_of,
};
use crate::laws::{lookup_finds_an_entry, winner_is_found_by_its_name};
use crate::pattern::{ScheduleType, ScheduleTypeModel};
use crate::period::TimeOfDay;

verus! {

/// What a school's schedule is made of.
#[derive(Debug, PartialEq, Eq)]
pub struct ScheduleDefinition {
    /// Where the main calendar is fetched from.
    pub calendar_url: Option<String>,
    /// Where the calendar of overrides is fetched from.
    pub override_calendar_url: Option<String>,
    /// The day patterns with their names, as a list, so that they are gone
    /// through in one fixed order. No name is meant to stand twice
    /// (`names_are_unique`); where one does, the first entry is the one that
    /// the name means.
    pub schedule_types: Vec<(String, ScheduleType)>,
    /// The name of the pattern of each day of the week, Sunday first.
    pub typical_schedule: Vec<String>,
}

/// A day and a time of that day.
#[derive(Clone, Copy, Debug, PartialEq, Eq, Structural)]
pub struct Stamp {
    /// The day, counted from 0001-01-01 as day 1.
    pub day: i32,
    /// The time of day.
    pub time: TimeOfDay,
}

/// A schedule as it runs: the definition, and the calendar that the merged
/// entries have left.
#[derive(Debug)]
pub struct Schedule {
    /// When the calendar was last brought up to date.
    pub last_updated: Stamp,
    /// The annotations of each day that has any, by day number; a day's
    /// annotations stand in the order in which they were applied.
    pub calendar: HashMap<i32, Vec<Event>>,
    /// The definition of the schedule.
    pub definition: ScheduleDefinition,
}

/// Why no pattern could be given for a date.
#[derive(Clone, Copy, Debug, PartialEq, Eq, Structural)]
pub enum ScheduleError {
    /// A name stands where a pattern is meant, and no pattern has that name.
    UnknownPattern,
    /// The weekly rotation has no entry for the date's day of the week.
    NoTypicalPattern,
    /// The day number is not that of any date.
    DateOutOfRange,
}

/// The pattern that a date follows.
#[derive(Debug, PartialEq, Eq)]
pub enum Resolution {
    /// One of the definition's patterns.
    Pattern(ScheduleType),
    /// A one-off pattern, as the text that writes it out.
    Literal(String),
}

/// The mathematical value of a [`Resolution`].
pub enum ResolutionModel {
    Pattern(ScheduleTypeModel),
    Literal(Seq<char>),
}

impl View for Resolution {
    type V = ResolutionModel;

    open spec fn view(&self) -> ResolutionModel {
        match self {
            Resolution::Pattern(t) => ResolutionModel::Pattern(t@),
            Resolution::Literal(s) => ResolutionModel::Literal(s@),
        }
    }
}

/// The value of the outcome of a resolution.
pub open spec fn outcome_model(r: Result<Resolution, ScheduleError>) -> Result<
    ResolutionModel,
    ScheduleError,
> {
    match r {
        Ok(x) => Ok(x@),
        Err(e) => Err(e),
    }
}

/// The named patterns of a definition as values, in order.
pub open spec fn catalog_model(entries: Seq<(String, ScheduleType)>) -> Seq<
    (Seq<char>, ScheduleTypeModel),
> {
    Seq::new(entries.len(), |i: int| (entries[i].0@, entries[i].1@))
}

/// The names of a weekly rotation as values, in order.
pub open spec fn name_models(names: Seq<String>) -> Seq<Seq<char>> {
    Seq::new(names.len(), |i: int| names[i]@)
}

/// The calendar as a map from day numbers to the values of the annotations.
pub open spec fn calendar_model(days: Map<i32, Vec<Event>>) -> Map<i32, Seq<EventModel>> {
    Map::new(|d: i32| days.contains_key(d), |d: i32| event_models(days[d]@))
}

/// The annotations of day `d`; a day that the calendar does not hold has
/// none.
pub open spec fn day_of(cal: Map<i32, Seq<EventModel>>, d: i32) -> Seq<EventModel> {
    if cal.contains_key(d) {
        cal[d]
    } else {
        Seq::empty()
    }
}

/// No name stands twice among the named patterns.
pub open spec fn unique_names(catalog: Seq<(Seq<char>, ScheduleTypeModel)>) -> bool {
    forall|i: int, j: int|
        0 <= i < j < catalog.len() ==> (#[trigger] catalog[i]).0 != (#[trigger] catalog[j]).0
}

/// Every rule among the named patterns is a regular expression.
pub open spec fn rules_compile(catalog: Seq<(Seq<char>, ScheduleTypeModel)>) -> bool {
    forall|i: int|
        0 <= i < catalog.len() ==> match (#[trigger] catalog[i]).1.regex {
            Some(rule) => regex_compiles(rule),
            None => true,
        }
}

/// The first pattern named `name` among the entries from index `from` on.
pub open spec fn lookup(
    catalog: Seq<(Seq<char>, ScheduleTypeModel)>,
    name: Seq<char>,
    from: int,
) -> Option<ScheduleTypeModel>
    decreases catalog.len() - from,
{
    if from < 0 || from >= catalog.len() {
        None
    } else if catalog[from].0 == name {
        Some(catalog[from].1)
    } else {
        lookup(catalog, name, from + 1)
    }
}

/// The calendar entry's title is one that the pattern's rule accepts.
pub open spec fn announces(pattern: ScheduleTypeModel, summary: Seq<char>) -> bool {
    match pattern.regex {
        Some(rule) => regex_verdict(rule, summary) == Some(true),
        None => false,
    }
}

/// Name `a` comes before name `b` in the order of names, as far as the
/// characters from index `from` on decide: the first character in which the
/// two differ is the smaller in `a`, or `a` ends first.
pub open spec fn name_before(a: Seq<char>, b: Seq<char>, from: int) -> bool
    decreases a.len() - from,
{
    if from < 0 || from >= b.len() {
        false
    } else if from >= a.len() {
        true
    } else if (a[from] as u32) != (b[from] as u32) {
        (a[from] as u32) < (b[from] as u32)
    } else {
        name_before(a, b, from + 1)
    }
}

/// Of the first `n` patterns, the name of the one that a calendar entry
/// with title `summary` announces: among the patterns whose rule accepts
/// the title, the one whose name comes last in the order of names.
pub open spec fn winner(
    catalog: Seq<(Seq<char>, ScheduleTypeModel)>,
    summary: Seq<char>,
    n: int,
) -> Option<Seq<char>>
    decreases n,
{
    if n <= 0 || n > catalog.len() {
        None
    } else {
        let earlier = winner(catalog, summary, n - 1);
        if !announces(catalog[n - 1].1, summary) {
            earlier
        } else {
            match earlier {
                Some(best) => if name_before(catalog[n - 1].0, best, 0) {
                    earlier
                } else {
                    Some(catalog[n - 1].0)
                },
                None => Some(catalog[n - 1].0),
            }
        }
    }
}

/// The pattern name of the first annotation from index `from` on that names
/// one.
pub open spec fn first_override(day: Seq<EventModel>, from: int) -> Option<Seq<char>>
    decreases day.len() - from,
{
    if from < 0 || from >= day.len() {
        None
    } else {
        match day[from] {
            EventModel::ScheduleOverride(name) => Some(name),
            _ => first_override(day, from + 1),
        }
    }
}

/// The text of the first annotation from index `from` on that writes a
/// pattern out.
pub open spec fn first_literal(day: Seq<EventModel>, from: int) -> Option<Seq<char>>
    decreases day.len() - from,
{
    if from < 0 || from >= day.len() {
        None
    } else {
        match day[from] {
            EventModel::ScheduleLiteral(raw) => Some(raw),
            _ => first_literal(day, from + 1),
        }
    }
}

/// The pattern called `name`, or the error that no pattern is.
pub open spec fn named(catalog: Seq<(Seq<char>, ScheduleTypeModel)>, name: Seq<char>) -> Result<
    ResolutionModel,
    ScheduleError,
> {
    match lookup(catalog, name, 0) {
        Some(t) => Ok(ResolutionModel::Pattern(t)),
        None => Err(ScheduleError::UnknownPattern),
    }
}

/// The pattern that the weekly rotation gives day `date`.
pub open spec fn typical_of(
    catalog: Seq<(Seq<char>, ScheduleTypeModel)>,
    typical: Seq<Seq<char>>,
    date: i32,
) -> Result<ResolutionModel, ScheduleError> {
    if !(FIRST_DAY <= date <= LAST_DAY) {
        Err(ScheduleError::DateOutOfRange)
    } else if weekday_of(date as int) >= typical.len() {
        Err(ScheduleError::NoTypicalPattern)
    } else {
        named(catalog, typical[weekday_of(date as int)])
    }
}

/// The pattern that day `date` follows: the one that the day's first
/// annotation naming a pattern names; without such an annotation, the first
/// pattern written out on the day; without that, the pattern of the weekly
/// rotation.
pub open spec fn resolved(
    cal: Map<i32, Seq<EventModel>>,
    catalog: Seq<(Seq<char>, ScheduleTypeModel)>,
    typical: Seq<Seq<char>>,
    date: i32,
) -> Result<ResolutionModel, ScheduleError> {
    let day = day_of(cal, date);
    match first_override(day, 0) {
        Some(name) => named(catalog, name),
        None => match first_literal(day, 0) {
            Some(raw) => Ok(ResolutionModel::Literal(raw)),
            None => typical_of(catalog, typical, date),
        },
    }
}

/// The pattern text that an entry writes out, if it does and the text
/// decodes.
pub open spec fn literal_of(event: IcalEventModel) -> Option<Seq<char>> {
    match event.description {
        Some(d) => if event.literal_decodes {
            literal_text(d)
        } else {
            None
        },
        None => None,
    }
}

/// The day after the last day of an entry that starts on `start`: the end
/// that the entry gives, or the next day where it gives none or gives the
/// start itself.
pub open spec fn span_end(start: i32, end: Option<i32>) -> int {
    match end {
        Some(e) => if e != start {
            e as int
        } else {
            start + 1
        },
        None => start + 1,
    }
}

/// The calendar once an entry has been applied to the days from `from` up
/// to, not including, `to`, in order. An entry that writes a pattern out is
/// applied to the first of these days only.
pub open spec fn merged_span(
    cal: Map<i32, Seq<EventModel>>,
    literal: Option<Seq<char>>,
    winner: Option<Seq<char>>,
    summary: Seq<char>,
    from: int,
    to: int,
) -> Map<i32, Seq<EventModel>>
    decreases to - from,
{
    if from >= to {
        cal
    } else {
        let d = from as i32;
        let next = cal.insert(d, merged_day(day_of(cal, d), literal, winner, summary));
        if literal is Some {
            next
        } else {
            merged_span(next, literal, winner, summary, from + 1, to)
        }
    }
}

/// The calendar once one entry has been applied. An entry without a start
/// or without a title changes nothing.
pub open spec fn merged_event(
    cal: Map<i32, Seq<EventModel>>,
    catalog: Seq<(Seq<char>, ScheduleTypeModel)>,
    event: IcalEventModel,
) -> Map<i32, Seq<EventModel>> {
    match (event.start, event.summary) {
        (Some(start), Some(summary)) => merged_span(
            cal,
            literal_of(event),
            winner(catalog, summary, catalog.len() as int),
            summary,
            start as int,
            span_end(start, event.end),
        ),
        _ => cal,
    }
}

/// The calendar once the entries from index `from` on have been applied, in
/// order.
pub open spec fn merged_events(
    cal: Map<i32, Seq<EventModel>>,
    catalog: Seq<(Seq<char>, ScheduleTypeModel)>,
    events: Seq<IcalEventModel>,
    from: int,
) -> Map<i32, Seq<EventModel>>
    decreases events.len() - from,
{
    if from < 0 || from >= events.len() {
        cal
    } else {
        merged_events(merged_event(cal, catalog, events[from]), catalog, events, from + 1)
    }
}

impl ScheduleDefinition {
    /// The named patterns as values.
    pub open spec fn catalog(&self) -> Seq<(Seq<char>, ScheduleTypeModel)> {
        catalog_model(self.schedule_types@)
    }

    /// The weekly rotation as values.
    pub open spec fn typical(&self) -> Seq<Seq<char>> {
        name_models(self.typical_schedule@)
    }

    /// No name stands twice among the definition's patterns.
    pub open spec fn names_are_unique(&self) -> bool {
        unique_names(self.catalog())
    }

    /// The pattern called `name`: the first entry with that name. Where no
    /// name stands twice, that is the one entry with the name, wherever it
    /// is listed.
    pub fn find(&self, name: &String) -> (r: Option<ScheduleType>)
        ensures
            match r {
                Some(t) => lookup(self.catalog(), name@, 0) == Some(t@),
                None => lookup(self.catalog(), name@, 0) is None,
            },
            r is None ==> forall|i: int|
                0 <= i < self.catalog().len() ==> (#[trigger] self.catalog()[i]).0 != name@,
            self.names_are_unique() ==> forall|i: int|
                0 <= i < self.catalog().len() && (#[trigger] self.catalog()[i]).0 == name@ ==> r
                    is Some && r->0@ == self.catalog()[i].1,
    {
        proof {
            lookup_finds_an_entry(self.catalog(), name@, 0);
        }
        let mut k: usize = 0;
        while k < self.schedule_types.len()
            invariant
                k <= self.schedule_types.len(),
                lookup(self.catalog(), name@, k as int) == lookup(self.catalog(), name@, 0),
                match lookup(self.catalog(), name@, 0) {
                    Some(t) => exists|i: int|
                        0 <= i < self.catalog().len() && (#[trigger] self.catalog()[i]) == (
                            name@,
                            t,
                        ),
                    None => forall|i: int|
                        0 <= i < self.catalog().len() ==> (#[trigger] self.catalog()[i]).0
                            != name@,
                },
            decreases self.schedule_types.len() - k,
        {
            if self.schedule_types[k].0 == *name {
                return Some(self.schedule_types[k].1.clone());
            }
            k += 1;
        }
        None
    }

    /// Whether every rule of the definition's patterns is a regular
    /// expression.
    pub fn rules_compile(&self) -> (r: bool)
        ensures
            r == rules_compile(self.catalog()),
    {
        let mut k: usize = 0;
        while k < self.schedule_types.len()
            invariant
                k <= self.schedule_types.len(),
                forall|i: int|
                    0 <= i < k ==> match (#[trigger] self.catalog()[i]).1.regex {
                        Some(rule) => regex_compiles(rule),
                        None => true,
                    },
            decreases self.schedule_types.len() - k,
        {
            let compiles = match &self.schedule_types[k].1.regex {
                Some(rule) => rule_compiles(rule.as_str()),
                None => true,
            };
            if !compiles {
                assert(self.catalog()[k as int].1.regex is Some);
                return false;
            }
            k += 1;
        }
        true
    }

    /// The name of the pattern that a calendar entry with title `summary`
    /// announces: of the patterns whose rule accepts the title, the one
    /// whose name comes last in the order of names, however the patterns are
    /// listed. A pattern without a rule, or with a rule that is no regular
    /// expression, accepts nothing.
    pub fn matching_pattern(&self, summary: &String) -> (r: Option<String>)
        ensures
            text_of(r) == winner(self.catalog(), summary@, self.catalog().len() as int),
            self.names_are_unique() ==> match r {
                Some(w) => exists|i: int|
                    0 <= i < self.catalog().len() && (#[trigger] self.catalog()[i]).0 == w@
                        && announces(self.catalog()[i].1, summary@) && lookup(
                        self.catalog(),
                        w@,
                        0,
                    ) == Some(self.catalog()[i].1),
                None => forall|i: int|
                    0 <= i < self.catalog().len() ==> !announces(
                        (#[trigger] self.catalog()[i]).1,
                        summary@,
                    ),
            },
    {
        proof {
            if self.names_are_unique() {
                winner_is_found_by_its_name(self.catalog(), summary@);
            }
        }
        let mut best: Option<usize> = None;
        let mut k: usize = 0;
        while k < self.schedule_types.len()
            invariant
                k <= self.schedule_types.len(),
                match best {
                    Some(i) => i < k && winner(self.catalog(), summary@, k as int) == Some(
                        self.catalog()[i as int].0,
                    ),
                    None => winner(self.catalog(), summary@, k as int) is None,
                },
            decreases self.schedule_types.len() - k,
        {
            let entry = &self.schedule_types[k];
            let accepted = match &entry.1.regex {
                Some(rule) => announced(rule_matches(rule.as_str(), summary.as_str())),
                None => false,
            };
            if accepted {
                match best {
                    Some(i) => {
                        if !comes_before(entry.0.as_str(), self.schedule_types[i].0.as_str()) {
                            best = Some(k);
                        }
                    },
                    None => {
                        best = Some(k);
                    },
                }
            }
            k += 1;
        }
        match best {
            Some(i) => Some(self.schedule_types[i].0.clone()),
            None => None,
        }
    }
}

/// Whether `rule` is a regular expression.
pub fn rule_compiles(rule: &str) -> (r: bool)
    ensures
        r == regex_compiles(rule@),
{
    rule_matches(rule, "").is_some()
}

/// Whether name `a` comes before name `b` in the order of names.
pub fn comes_before(a: &str, b: &str) -> (r: bool)
    ensures
        r == name_before(a@, b@, 0),
{
    let n = a.unicode_len();
    let m = b.unicode_len();
    let mut k: usize = 0;
    while k < m
        invariant
            k <= n,
            n == a@.len(),
            m == b@.len(),
            name_before(a@, b@, k as int) == name_before(a@, b@, 0),
        decreases m - k,
    {
        if k >= n {
            return true;
        }
        let x = a.get_char(k) as u32;
        let y = b.get_char(k) as u32;
        if x != y {
            return x < y;
        }
        k += 1;
    }
    false
}

/// Whether a rule's verdict on a title is that it accepts the title.
pub fn announced(verdict: Option<bool>) -> (r: bool)
    ensures
        r == (verdict == Some(true)),
{
    match verdict {
        Some(found) => found,
        None => false,
    }
}

/// Applies an entry to one day of the calendar: `literal` is the pattern
/// text that the entry writes out, if any; `winner` the pattern that its
/// title `summary` announces, if any.
pub fn annotate(
    calendar: &mut HashMap<i32, Vec<Event>>,
    day: i32,
    literal: &Option<String>,
    winner: &Option<String>,
    summary: &String,
)
    ensures
        calendar_model(final(calendar)@) == calendar_model(old(calendar)@).insert(
            day,
            merged_day(
                day_of(calendar_model(old(calendar)@), day),
                text_of(*literal),
                text_of(*winner),
                summary@,
            ),
        ),
{
    broadcast use group_hash_axioms;

    let mut list: Vec<Event> = match calendar.remove(&day) {
        Some(list) => list,
        None => Vec::new(),
    };
    assert(event_models(list@) =~= day_of(calendar_model(old(calendar)@), day));
    match literal {
        Some(raw) => {
            list.push(Event::ScheduleLiteral(raw.clone()));
            assert(event_models(list@) =~= day_of(calendar_model(old(calendar)@), day).push(
                EventModel::ScheduleLiteral(raw@),
            ));
        },
        None => {
            annotate_day(&mut list, winner, summary);
        },
    }
    calendar.insert(day, list);
}

/// Applies one calendar entry to the schedule's calendar.
pub fn apply_event(schedule: &mut Schedule, event: &IcalEvent)
    ensures
        calendar_model(final(schedule).calendar@) == merged_event(
            calendar_model(old(schedule).calendar@),
            old(schedule).definition.catalog(),
            event@,
        ),
        final(schedule).definition == old(schedule).definition,
        final(schedule).last_updated == old(schedule).last_updated,
{
    let start: i32 = match event.start {
        Some(s) => s,
        None => {
            return ;
        },
    };
    let summary: &String = match &event.summary {
        Some(s) => s,
        None => {
            return ;
        },
    };
    let literal: Option<String> = match &event.description {
        Some(d) => if event.literal_decodes {
            literal_payload(d.as_str())
        } else {
            None
        },
        None => None,
    };
    let announced_name = schedule.definition.matching_pattern(summary);
    let end: i64 = match event.end {
        Some(e) => if e != start {
            e as i64
        } else {
            start as i64 + 1
        },
        None => start as i64 + 1,
    };
    let mut day: i64 = start as i64;
    while day < end
        invariant
            start <= day,
            end <= i32::MAX + 1,
            end == span_end(start, event.end),
            event@.start == Some(start),
            event@.summary == Some(summary@),
            text_of(literal) == literal_of(event@),
            text_of(announced_name) == winner(
                schedule.definition.catalog(),
                summary@,
                schedule.definition.catalog().len() as int,
            ),
            schedule.definition == old(schedule).definition,
            schedule.last_updated == old(schedule).last_updated,
            merged_span(
                calendar_model(schedule.calendar@),
                text_of(literal),
                text_of(announced_name),
                summary@,
                day as int,
                end as int,
            ) == merged_span(
                calendar_model(old(schedule).calendar@),
                text_of(literal),
                text_of(announced_name),
                summary@,
                start as int,
                end as int,
            ),
        decreases end - day,
    {
        annotate(&mut schedule.calendar, day as i32, &literal, &announced_name, summary);
        if literal.is_some() {
            return ;
        }
        day += 1;
    }
}

/// Applies calendar entries to the schedule's calendar, in order.
///
/// Each entry annotates the days from its start up to, not including, its
/// end; an entry without an end, or with its start as its end, annotates
/// the start alone. An entry that writes a pattern out leaves that text on
/// its first day only. Any other entry names, on each of its days, the
/// pattern that its title announces, or leaves its title as a note where it
/// announces none.
pub fn ical_to_ours(schedule: &mut Schedule, data: &Vec<IcalEvent>)
    ensures
        calendar_model(final(schedule).calendar@) == merged_events(
            calendar_model(old(schedule).calendar@),
            old(schedule).definition.catalog(),
            ical_models(data@),
            0,
        ),
        final(schedule).definition == old(schedule).definition,
        final(schedule).last_updated == old(schedule).last_updated,
{
    let mut k: usize = 0;
    while k < data.len()
        invariant
            k <= data.len(),
            schedule.definition == old(schedule).definition,
            schedule.last_updated == old(schedule).last_updated,
            merged_events(
                calendar_model(schedule.calendar@),
                schedule.definition.catalog(),
                ical_models(data@),
                k as int,
            ) == merged_events(
                calendar_model(old(schedule).calendar@),
                old(schedule).definition.catalog(),
                ical_models(data@),
                0,
            ),
        decreases data.len() - k,
    {
        apply_event(schedule, &data[k]);
        k += 1;
    }
}

impl Schedule {
    /// The calendar as a map from day numbers to the values of the
    /// annotations.
    pub open spec fn calendar_model(&self) -> Map<i32, Seq<EventModel>> {
        calendar_model(self.calendar@)
    }

    /// A schedule with an empty calendar, last brought up to date at
    /// midnight of 1970-01-01.
    pub fn new(definition: ScheduleDefinition) -> (r: Schedule)
        ensures
            r.definition == definition,
            r.calendar_model() == Map::<i32, Seq<EventModel>>::empty(),
            r.last_updated == (Stamp { day: 719_163, time: TimeOfDay::at(0, 0, 0) }),
    {
        let r = Schedule {
            last_updated: Stamp { day: 719_163, time: TimeOfDay::midnight() },
            calendar: HashMap::new(),
            definition,
        };
        r
    }

    /// Brings the calendar up to date: replaces it by what the entries of the
    /// main calendar, and then those of the calendar of overrides, make of
    /// an empty calendar, and notes the machine's present time as the time of
    /// the update. Nothing of the calendar before is kept.
    pub fn update(&mut self, primary: &Vec<IcalEvent>, overrides: &Vec<IcalEvent>)
        ensures
            final(self).calendar_model() == merged_events(
                merged_events(
                    Map::empty(),
                    old(self).definition.catalog(),
                    ical_models(primary@),
                    0,
                ),
                old(self).definition.catalog(),
                ical_models(overrides@),
                0,
            ),
            final(self).definition == old(self).definition,
            is_date(final(self).last_updated.day as int),
    {
        let now = local_now();
        let time = TimeOfDay { secs: now.1, frac: now.2 };
        self.update_at(primary, overrides, Stamp { day: now.0, time });
    }

    /// Brings the calendar up to date at `now`: replaces it by what the
    /// entries of the main calendar, and then those of the calendar of
    /// overrides, make of an empty calendar. Nothing of the calendar before
    /// is kept.
    pub fn update_at(&mut self, primary: &Vec<IcalEvent>, overrides: &Vec<IcalEvent>, now: Stamp)
        ensures
            final(self).calendar_model() == merged_events(
                merged_events(
                    Map::empty(),
                    old(self).definition.catalog(),
                    ical_models(primary@),
                    0,
                ),
                old(self).definition.catalog(),
                ical_models(overrides@),
                0,
            ),
            final(self).definition == old(self).definition,
            final(self).last_updated == now,
    {
        self.calendar = HashMap::new();
        assert(self.calendar_model() =~= Map::<i32, Seq<EventModel>>::empty());
        ical_to_ours(self, primary);
        ical_to_ours(self, overrides);
        self.last_updated = now;
    }

    /// The calendar was last brought up to date on another day than `today`.
    pub open spec fn stale_on(&self, today: i32) -> bool {
        self.last_updated.day != today
    }

    /// Whether the calendar was last brought up to date on another day than
    /// the machine's present day. Which day that is depends on the clock; it
    /// is the day of some date, so a calendar whose last update is on no
    /// date always needs one.
    pub fn is_update_needed(&self) -> (r: bool)
        ensures
            exists|today: i32| is_date(today as int) && r == #[trigger] self.stale_on(today),
            !is_date(self.last_updated.day as int) ==> r,
    {
        let now = local_now();
        let r = self.is_stale_on(now.0);
        proof {
            assert(is_date(now.0 as int) && r == self.stale_on(now.0));
        }
        r
    }

    /// Whether the calendar was last brought up to date on another day than
    /// `today`.
    pub fn is_stale_on(&self, today: i32) -> (r: bool)
        ensures
            r == self.stale_on(today),
    {
        self.last_updated.day != today
    }

    /// The pattern that day `date` follows.
    ///
    /// The day's first annotation that names a pattern decides, wherever it
    /// stands among the others. Without one, the first pattern written out on
    /// the day is given, as its text. Without that, the weekly rotation
    /// decides. A name that no pattern has is an error, as is a rotation
    /// without an entry for the day of the week.
    pub fn on_date(&self, date: i32) -> (r: Result<Resolution, ScheduleError>)
        ensures
            outcome_model(r) == resolved(
                self.calendar_model(),
                self.definition.catalog(),
                self.definition.typical(),
                date,
            ),
    {
        broadcast use group_hash_axioms;

        let mut literal: Option<String> = None;
        let ghost day = day_of(self.calendar_model(), date);
        match self.calendar.get(&date) {
            Some(list) => {
                let mut k: usize = 0;
                while k < list.len()
                    invariant
                        k <= list.len(),
                        event_models(list@) == day,
                        day == day_of(self.calendar_model(), date),
                        first_override(day, k as int) == first_override(day, 0),
                        match literal {
                            Some(raw) => first_literal(day, 0) == Some(raw@),
                            None => first_literal(day, k as int) == first_literal(day, 0),
                        },
                    decreases list.len() - k,
                {
                    match &list[k] {
                        Event::ScheduleOverride(name) => {
                            return self.pattern_named(name);
                        },
                        Event::ScheduleLiteral(raw) => {
                            if literal.is_none() {
                                literal = Some(raw.clone());
                            }
                        },
                        _ => {},
                    }
                    k += 1;
                }
            },
            None => {},
        }
        match literal {
            Some(raw) => Ok(Resolution::Literal(raw)),
            None => self.typical_pattern(date),
        }
    }

    /// The pattern called `name`, or the error that no pattern is.
    pub fn pattern_named(&self, name: &String) -> (r: Result<Resolution, ScheduleError>)
        ensures
            outcome_model(r) == named(self.definition.catalog(), name@),
    {
        match self.definition.find(name) {
            Some(t) => Ok(Resolution::Pattern(t)),
            None => Err(ScheduleError::UnknownPattern),
        }
    }

    /// The pattern that the weekly rotation gives day `date`.
    pub fn typical_pattern(&self, date: i32) -> (r: Result<Resolution, ScheduleError>)
        ensures
            outcome_model(r) == typical_of(
                self.definition.catalog(),
                self.definition.typical(),
                date,
            ),
    {
        match weekday_from_sunday(date) {
            None => Err(ScheduleError::DateOutOfRange),
            Some(w) => {
                let w = w as usize;
                if w >= self.definition.typical_schedule.len() {
                    Err(ScheduleError::NoTypicalPattern)
                } else {
                    self.pattern_named(&self.definition.typical_schedule[w])
                }
            },
        }
    }
}

} // verus!
