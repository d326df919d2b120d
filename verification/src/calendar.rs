//! The annotations of one calendar day and the rules by which a calendar
//! entry changes them.

use vstd::prelude::*;
use vstd::string::StringExecFns;
use vstd::string::StrSliceExecFns;

verus! {

/// An annotation of one calendar day.
#[derive(Debug, PartialEq, Eq)]
pub enum Event {
    /// The day follows the pattern of this name.
    ScheduleOverride(String),
    /// The day follows the one-off pattern written out in this text.
    ScheduleLiteral(String),
    /// Something special happens that day; it changes no pattern.
    SpecialEvent(String),
}

/// The mathematical value of an [`Event`].
pub enum EventModel {
    ScheduleOverride(Seq<char>),
    ScheduleLiteral(Seq<char>),
    SpecialEvent(Seq<char>),
}

impl View for Event {
    type V = EventModel;

    open spec fn view(&self) -> EventModel {
        match self {
            Event::ScheduleOverride(s) => EventModel::ScheduleOverride(s@),
            Event::ScheduleLiteral(s) => EventModel::ScheduleLiteral(s@),
            Event::SpecialEvent(s) => EventModel::SpecialEvent(s@),
        }
    }
}

impl Clone for Event {
    fn clone(&self) -> (r: Self)
        ensures
            r@ == self@,
    {
        match self {
            Event::ScheduleOverride(s) => Event::ScheduleOverride(s.clone()),
            Event::ScheduleLiteral(s) => Event::ScheduleLiteral(s.clone()),
            Event::SpecialEvent(s) => Event::SpecialEvent(s.clone()),
        }
    }
}

impl Event {
    /// Whether two annotations have the same value.
    pub fn same(&self, other: &Event) -> (r: bool)
        ensures
            r == (self@ == other@),
    {
        match (self, other) {
            (Event::ScheduleOverride(a), Event::ScheduleOverride(b)) => *a == *b,
            (Event::ScheduleLiteral(a), Event::ScheduleLiteral(b)) => *a == *b,
            (Event::SpecialEvent(a), Event::SpecialEvent(b)) => *a == *b,
            _ => false,
        }
    }
}

/// The value of an optional string.
pub open spec fn text_of(s: Option<String>) -> Option<Seq<char>> {
    match s {
        Some(s) => Some(s@),
        None => None,
    }
}

/// The values of a day's annotations, in order.
pub open spec fn event_models(events: Seq<Event>) -> Seq<EventModel> {
    Seq::new(events.len(), |i: int| events[i]@)
}

/// One entry of an outside calendar.
#[derive(Debug, PartialEq, Eq)]
pub struct IcalEvent {
    /// The first day of the entry, counted from 0001-01-01 as day 1.
    pub start: Option<i32>,
    /// The day after the last day of the entry, counted the same way.
    pub end: Option<i32>,
    /// The entry's title.
    pub summary: Option<String>,
    /// The entry's longer text.
    pub description: Option<String>,
    /// Whether the text behind the literal marker of the description decodes
    /// as a day pattern. It is read only where the description has the
    /// marker.
    pub literal_decodes: bool,
}

/// The mathematical value of an [`IcalEvent`].
pub struct IcalEventModel {
    pub start: Option<i32>,
    pub end: Option<i32>,
    pub summary: Option<Seq<char>>,
    pub description: Option<Seq<char>>,
    pub literal_decodes: bool,
}

impl View for IcalEvent {
    type V = IcalEventModel;

    open spec fn view(&self) -> IcalEventModel {
        IcalEventModel {
            start: self.start,
            end: self.end,
            summary: text_of(self.summary),
            description: text_of(self.description),
            literal_decodes: self.literal_decodes,
        }
    }
}

/// The values of a list of calendar entries, in order.
pub open spec fn ical_models(events: Seq<IcalEvent>) -> Seq<IcalEventModel> {
    Seq::new(events.len(), |i: int| events[i]@)
}

/// The words that open a description which writes a day pattern out.
pub open spec fn literal_marker() -> Seq<char> {
    "LITERAL SCHEDULE "@
}

/// The text behind the literal marker, where `description` starts with it.
pub open spec fn literal_text(description: Seq<char>) -> Option<Seq<char>> {
    if literal_marker().is_prefix_of(description) {
        Some(description.subrange(literal_marker().len() as int, description.len() as int))
    } else {
        None
    }
}

/// The text behind the literal marker, where `description` starts with it.
pub fn literal_payload(description: &str) -> (r: Option<String>)
    ensures
        text_of(r) == literal_text(description@),
{
    let marker = "LITERAL SCHEDULE ";
    let m = marker.unicode_len();
    let n = description.unicode_len();
    if n < m {
        return None;
    }
    let mut k: usize = 0;
    while k < m
        invariant
            k <= m <= n,
            m == marker@.len(),
            n == description@.len(),
            marker@ == literal_marker(),
            forall|j: int| 0 <= j < k ==> description@[j] == marker@[j],
        decreases m - k,
    {
        if description.get_char(k) != marker.get_char(k) {
            return None;
        }
        k += 1;
    }
    Some(String::from_str(description.substring_char(m, n)))
}

/// Some annotation of the day names a pattern.
pub open spec fn has_override(day: Seq<EventModel>) -> bool {
    exists|i: int| 0 <= i < day.len() && (#[trigger] day[i]) is ScheduleOverride
}

/// The day once a calendar entry has announced the pattern `name`: every
/// annotation that names a pattern now names this one; where there was none,
/// one is added at the end.
pub open spec fn with_override(day: Seq<EventModel>, name: Seq<char>) -> Seq<EventModel> {
    if has_override(day) {
        Seq::new(
            day.len(),
            |i: int|
                if day[i] is ScheduleOverride {
                    EventModel::ScheduleOverride(name)
                } else {
                    day[i]
                },
        )
    } else {
        day.push(EventModel::ScheduleOverride(name))
    }
}

/// The day once the note `text` is on it: added at the end, unless the day
/// has that note already.
pub open spec fn with_note(day: Seq<EventModel>, text: Seq<char>) -> Seq<EventModel> {
    if day.contains(EventModel::SpecialEvent(text)) {
        day
    } else {
        day.push(EventModel::SpecialEvent(text))
    }
}

/// The day once an entry with title `summary` has been applied to it, where
/// `winner` is the pattern that the title announces, if it announces one.
pub open spec fn annotated(day: Seq<EventModel>, winner: Option<Seq<char>>, summary: Seq<char>) -> Seq<
    EventModel,
> {
    match winner {
        Some(name) => with_override(day, name),
        None => with_note(day, summary),
    }
}

/// The day once an entry has been applied to it: an entry that writes a
/// pattern out adds that text, any other is applied by its title.
pub open spec fn merged_day(
    day: Seq<EventModel>,
    literal: Option<Seq<char>>,
    winner: Option<Seq<char>>,
    summary: Seq<char>,
) -> Seq<EventModel> {
    match literal {
        Some(raw) => day.push(EventModel::ScheduleLiteral(raw)),
        None => annotated(day, winner, summary),
    }
}

/// Makes every annotation that names a pattern name `name`, or adds such an
/// annotation where the day has none.
pub fn set_override(day: &mut Vec<Event>, name: &String)
    ensures
        event_models(final(day)@) == with_override(event_models(old(day)@), name@),
{
    let ghost before = event_models(day@);
    let n = day.len();
    let mut found = false;
    let mut k: usize = 0;
    while k < n
        invariant
            k <= n,
            n == day.len(),
            before.len() == n,
            found == (exists|i: int| 0 <= i < k && (#[trigger] before[i]) is ScheduleOverride),
            forall|j: int| k <= j < n ==> (#[trigger] day[j])@ == before[j],
            forall|j: int|
                0 <= j < k ==> (#[trigger] day[j])@ == (if before[j] is ScheduleOverride {
                    EventModel::ScheduleOverride(name@)
                } else {
                    before[j]
                }),
        decreases n - k,
    {
        let is_override = match &day[k] {
            Event::ScheduleOverride(_) => true,
            _ => false,
        };
        if is_override {
            day.set(k, Event::ScheduleOverride(name.clone()));
            found = true;
        }
        k += 1;
    }
    if !found {
        day.push(Event::ScheduleOverride(name.clone()));
    }
}

/// Puts the note `text` on the day, unless the day has that note already.
pub fn add_note(day: &mut Vec<Event>, text: &String)
    ensures
        event_models(final(day)@) == with_note(event_models(old(day)@), text@),
{
    let ghost before = event_models(day@);
    let note = Event::SpecialEvent(text.clone());
    let n = day.len();
    let mut k: usize = 0;
    while k < n
        invariant
            k <= n,
            n == day.len(),
            before == event_models(day@),
            note@ == EventModel::SpecialEvent(text@),
            forall|j: int| 0 <= j < k ==> (#[trigger] before[j]) != note@,
        decreases n - k,
    {
        if day[k].same(&note) {
            assert(before[k as int] == note@);
            return ;
        }
        k += 1;
    }
    day.push(note);
}

/// Applies to one day an entry with title `summary` that writes no pattern
/// out: `winner` is the pattern that the title announces, if any.
pub fn annotate_day(day: &mut Vec<Event>, winner: &Option<String>, summary: &String)
    ensures
        event_models(final(day)@) == annotated(
            event_models(old(day)@),
            text_of(*winner),
            summary@,
        ),
{
    match winner {
        Some(name) => set_override(day, name),
        None => add_note(day, summary),
    }
}

} // verus!
