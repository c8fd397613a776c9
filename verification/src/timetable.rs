//! Events, the timetable that holds them, and the selection of a week.

use crate::calendar::Date;
use crate::calendar::Hms;
use crate::calendar::IsoWeek;
use crate::calendar::TimeOfDay;
use crate::calendar::Ymd;
use crate::text::clone_text;
use crate::text::text_view;
use vstd::prelude::*;

verus! {

/// The colour class of an event.
#[derive(Clone, Copy, Debug, PartialEq, Eq, Structural)]
pub enum EventCategory {
    Default,
    Yellow,
    Green,
    Red,
    Blue,
}

/// One scheduled occurrence.
#[derive(Debug)]
pub struct Event {
    pub category: EventCategory,
    pub date: Date,
    pub start_time: TimeOfDay,
    pub end_time: TimeOfDay,
    pub description: String,
    pub summary: String,
    pub location: String,
    /// The name of the module, where the summary starts with a module code.
    pub module_name: Option<String>,
}

/// What an [`Event`] holds.
pub struct EventView {
    pub category: EventCategory,
    pub date: Ymd,
    pub start_time: Hms,
    pub end_time: Hms,
    pub description: Seq<char>,
    pub summary: Seq<char>,
    pub location: Seq<char>,
    pub module_name: Option<Seq<char>>,
}

impl View for Event {
    type V = EventView;

    open spec fn view(&self) -> EventView {
        EventView {
            category: self.category,
            date: self.date@,
            start_time: self.start_time@,
            end_time: self.end_time@,
            description: self.description@,
            summary: self.summary@,
            location: self.location@,
            module_name: text_view(self.module_name),
        }
    }
}

impl Clone for Event {
    fn clone(&self) -> (r: Event)
        ensures
            r == *self,
    {
        Event {
            category: self.category,
            date: self.date,
            start_time: self.start_time,
            end_time: self.end_time,
            description: self.description.clone(),
            summary: self.summary.clone(),
            location: self.location.clone(),
            module_name: clone_text(&self.module_name),
        }
    }
}

impl EventView {
    /// Whether this event starts before `other`: on an earlier day, or on
    /// the same day at an earlier time.
    pub open spec fn starts_before(self, other: EventView) -> bool {
        self.date.before(other.date) || (self.date == other.date && self.start_time.before(
            other.start_time,
        ))
    }

    /// Whether this event and `other` start at the same moment.
    pub open spec fn starts_with(self, other: EventView) -> bool {
        self.date == other.date && self.start_time.second_of_day()
            == other.start_time.second_of_day()
    }
}

/// What a sequence of events holds.
pub open spec fn events_view(events: Seq<Event>) -> Seq<EventView> {
    events.map_values(|e: Event| e@)
}

/// Whether no event of `events` starts before one that precedes it.
pub open spec fn sorted_by_start(events: Seq<EventView>) -> bool {
    forall|i: int, j: int| 0 <= i < j < events.len() ==> !events[j].starts_before(events[i])
}

/// The events that lie in `week`.
pub open spec fn in_week(week: IsoWeek) -> spec_fn(EventView) -> bool {
    |e: EventView| e.date.iso_week() == week
}

/// Each event of a week lies in the week and is an event of the timetable,
/// each event of the timetable that lies in the week is an event of the
/// week, and the week has no more events than the timetable.
pub proof fn lemma_week_holds_its_events(events: Seq<EventView>, week: IsoWeek)
    ensures
        forall|i: int|
            0 <= i < events.filter(in_week(week)).len() ==> {
                &&& (#[trigger] events.filter(in_week(week))[i]).date.iso_week() == week
                &&& events.contains(events.filter(in_week(week))[i])
            },
        forall|i: int|
            0 <= i < events.len() && (#[trigger] events[i]).date.iso_week() == week
                ==> events.filter(in_week(week)).contains(events[i]),
        events.filter(in_week(week)).len() <= events.len(),
{
    let kept = events.filter(in_week(week));
    assert forall|i: int| 0 <= i < kept.len() implies {
        &&& (#[trigger] kept[i]).date.iso_week() == week
        &&& events.contains(kept[i])
    } by {
        events.lemma_filter_pred(in_week(week), i);
        events.lemma_filter_contains_rev(in_week(week), kept[i]);
    }
    events.lemma_filter_len(in_week(week));
}

/// The events of a week stand in the order in which the timetable has them:
/// of a timetable in the order of the start, so are the events of each of
/// its weeks.
pub proof fn lemma_week_keeps_the_order(events: Seq<EventView>, week: IsoWeek)
    requires
        sorted_by_start(events),
    ensures
        sorted_by_start(events.filter(in_week(week))),
    decreases events.len(),
{
    reveal(Seq::filter);
    if events.len() > 0 {
        let front = events.drop_last();
        let last = events.last();
        lemma_week_keeps_the_order(front, week);
        let kept = front.filter(in_week(week));
        if in_week(week)(last) {
            assert forall|i: int, j: int| 0 <= i < j < kept.push(last).len() implies !kept.push(
                last,
            )[j].starts_before(kept.push(last)[i]) by {
                if j == kept.len() {
                    front.lemma_filter_contains_rev(in_week(week), kept[i]);
                }
            }
        }
    }
}

/// All the events of one person, in the order in which they were given.
#[derive(Debug)]
pub struct Timetable {
    pub events: Vec<Event>,
}

impl View for Timetable {
    type V = Seq<EventView>;

    open spec fn view(&self) -> Seq<EventView> {
        events_view(self.events@)
    }
}

/// A copy of `events`.
pub fn clone_events(events: &Vec<Event>) -> (r: Vec<Event>)
    ensures
        r@ == events@,
{
    let mut out: Vec<Event> = Vec::new();
    let mut i: usize = 0;
    while i < events.len()
        invariant
            i <= events.len(),
            out@ == events@.take(i as int),
        decreases events.len() - i,
    {
        out.push(events[i].clone());
        i += 1;
    }
    out
}

impl Clone for Timetable {
    fn clone(&self) -> (r: Timetable)
        ensures
            r.events@ == self.events@,
    {
        Timetable { events: clone_events(&self.events) }
    }
}

impl Timetable {
    /// Whether the events are in the order of their start.
    pub open spec fn is_sorted(self) -> bool {
        sorted_by_start(self@)
    }

    /// The events that lie in `week`, in the order of the timetable.
    pub fn by_week(&self, week: IsoWeek) -> (r: Vec<Event>)
        ensures
            events_view(r@) == self@.filter(in_week(week)),
            self.is_sorted() ==> sorted_by_start(events_view(r@)),
    {
        let mut out: Vec<Event> = Vec::new();
        let mut i: usize = 0;
        proof {
            reveal(Seq::filter);
        }
        while i < self.events.len()
            invariant
                i <= self.events.len(),
                events_view(out@) == self@.take(i as int).filter(in_week(week)),
            decreases self.events.len() - i,
        {
            let event = &self.events[i];
            proof {
                assert(self@.take(i + 1) == self@.take(i as int).push(event@));
                self@.take(i as int).lemma_filter_push(event@, in_week(week));
            }
            if event.date.iso_week() == week {
                out.push(event.clone());
            }
            i += 1;
        }
        proof {
            assert(self@.take(self.events.len() as int) == self@);
            if self.is_sorted() {
                lemma_week_keeps_the_order(self@, week);
            }
        }
        out
    }

    /// The latest end of any event, or `None` where there is no event.
    pub fn max_end_time(&self) -> (r: Option<TimeOfDay>)
        ensures
            r is None <==> self@.len() == 0,
            r matches Some(t) ==> {
                &&& exists|i: int| 0 <= i < self@.len() && (#[trigger] self@[i]).end_time == t@
                &&& forall|i: int| 0 <= i < self@.len() ==> !t@.before(#[trigger] self@[i].end_time)
            },
    {
        if self.events.len() == 0 {
            return None;
        }
        let mut latest: TimeOfDay = self.events[0].end_time;
        let ghost mut at: int = 0;
        let mut i: usize = 1;
        while i < self.events.len()
            invariant
                1 <= i <= self.events.len(),
                0 <= at < i,
                self@[at].end_time == latest@,
                forall|k: int| 0 <= k < i ==> !latest@.before(#[trigger] self@[k].end_time),
            decreases self.events.len() - i,
        {
            let end = self.events[i].end_time;
            if latest.is_before(&end) {
                latest = end;
                proof {
                    at = i as int;
                }
            }
            i += 1;
        }
        Some(latest)
    }
}

/// Why no timetable could be had.
#[derive(Clone, Copy, Debug, PartialEq, Eq, Structural)]
pub enum GetTimetableError {
    /// The calendar could not be fetched or read.
    NotFound,
    /// The calendar was read and holds no event.
    EmptyTimetable,
}

impl GetTimetableError {
    /// The text of the error.
    pub open spec fn text(self) -> Seq<char> {
        match self {
            GetTimetableError::NotFound => "Timetable not found"@,
            GetTimetableError::EmptyTimetable => "Timetable is empty"@,
        }
    }

    /// The text of the error.
    pub fn message(&self) -> (r: String)
        ensures
            r@ == self.text(),
    {
        match self {
            GetTimetableError::NotFound => "Timetable not found".to_string(),
            GetTimetableError::EmptyTimetable => "Timetable is empty".to_string(),
        }
    }
}

/// A source of timetables.
pub trait TimetableGetter {
    /// The timetable of the identifier `vidko`.
    fn get(&self, vidko: &str) -> Result<Timetable, GetTimetableError>;
}

/// A source that gives the same timetable for every identifier.
#[derive(Debug)]
pub struct DummyTimetableGetter {
    timetable: Timetable,
}

impl DummyTimetableGetter {
    /// A source that gives `timetable`.
    pub fn new(timetable: Timetable) -> (r: DummyTimetableGetter)
        ensures
            r.given() == timetable,
    {
        DummyTimetableGetter { timetable }
    }

    /// The timetable that the source gives.
    pub closed spec fn given(self) -> Timetable {
        self.timetable
    }
}

impl TimetableGetter for DummyTimetableGetter {
    fn get(&self, vidko: &str) -> (r: Result<Timetable, GetTimetableError>)
        ensures
            r matches Ok(timetable) && timetable.events@ == self.given().events@,
    {
        Ok(self.timetable.clone())
    }
}

} // verus!
