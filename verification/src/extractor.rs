//! From an iCalendar document to a timetable.
//!
//! The document is read by the `ical` crate. What follows is this library's
//! own: the six properties that make an event, the category of an event, its
//! date and times, the name of its module, and the order of the timetable.
//!
//! An event that lacks one of the six properties, that has no value where one
//! is needed, or whose start or end cannot be read, fails the whole
//! extraction with [`GetTimetableError::NotFound`]: no event is skipped and
//! none is half filled.

use crate::calendar::hms_of;
use crate::calendar::parsed_date;
use crate::calendar::parsed_time;
use crate::calendar::read_date;
use crate::calendar::read_time;
use crate::calendar::ymd_of;
use crate::text::same_text;
use crate::text::split_at_first;
use crate::text::split_once;
use crate::text::text_view;
use crate::timetable::events_view;
use crate::timetable::sorted_by_start;
use crate::timetable::Event;
use crate::timetable::EventCategory;
use crate::timetable::EventView;
use crate::timetable::GetTimetableError;
use crate::timetable::Timetable;
use vstd::prelude::*;

verus! {

/// The format of the date in a start or end stamp.
pub const DATE_FORMAT: &'static str = "%Y%m%d";

/// The format of the time in a start or end stamp.
pub const TIME_FORMAT: &'static str = "%H%M%S";

/// The character between the date and the time of a stamp.
pub const STAMP_SEPARATOR: char = 'T';

/// A summary that starts with a module code: a word character, three
/// digits, a word character, three digits and a space. What follows the
/// space is the name of the module.
pub const MODULE_CODE_PATTERN: &'static str = r"^\w\d{3}\w\d{3} (.+)";

/// One line of a calendar component: a name and, unless it is empty, a value.
#[derive(Debug)]
pub struct Property {
    pub name: String,
    pub value: Option<String>,
}

/// What a [`Property`] holds.
pub struct PropertyView {
    pub name: Seq<char>,
    pub value: Option<Seq<char>>,
}

impl View for Property {
    type V = PropertyView;

    open spec fn view(&self) -> PropertyView {
        PropertyView { name: self.name@, value: text_view(self.value) }
    }
}

/// What a sequence of properties holds.
pub open spec fn properties_view(properties: Seq<Property>) -> Seq<PropertyView> {
    properties.map_values(|p: Property| p@)
}

/// One event component of a calendar: its properties in the order of the
/// document.
#[derive(Debug)]
pub struct CalendarEvent {
    pub properties: Vec<Property>,
}

impl View for CalendarEvent {
    type V = Seq<PropertyView>;

    open spec fn view(&self) -> Seq<PropertyView> {
        properties_view(self.properties@)
    }
}

/// What a sequence of event components holds.
pub open spec fn components_view(events: Seq<CalendarEvent>) -> Seq<Seq<PropertyView>> {
    events.map_values(|e: CalendarEvent| e@)
}

/// What reading the first calendar of a document gave.
#[derive(Debug)]
pub enum CalendarBody {
    /// The document holds no calendar.
    Missing,
    /// The document starts a calendar that cannot be read.
    Unreadable,
    /// The event components of the first calendar.
    Calendar(Vec<CalendarEvent>),
}

/// What a [`CalendarBody`] holds.
pub enum CalendarBodyView {
    Missing,
    Unreadable,
    Calendar(Seq<Seq<PropertyView>>),
}

impl View for CalendarBody {
    type V = CalendarBodyView;

    open spec fn view(&self) -> CalendarBodyView {
        match self {
            CalendarBody::Missing => CalendarBodyView::Missing,
            CalendarBody::Unreadable => CalendarBodyView::Unreadable,
            CalendarBody::Calendar(events) => CalendarBodyView::Calendar(components_view(events@)),
        }
    }
}

/// What `ical::IcalParser` yields first on the bytes `body`: nothing, an
/// error, or a calendar, of which the event components are kept, each as the
/// names and values of its properties.
pub uninterp spec fn ical_first_calendar(body: Seq<u8>) -> CalendarBodyView;

/// What the regular expression `pattern` of the `regex` crate captures in
/// `text`: `None` where `pattern` is no regular expression, `Some(None)`
/// where `text` has no match, else the text of the first group of the first
/// match, empty where that group took no part.
pub uninterp spec fn regex_first_group(pattern: Seq<char>, text: Seq<char>) -> Option<
    Option<Seq<char>>,
>;

/// `ical::IcalParser::new` on `body`, and the first item of the iterator that
/// it is. Of a calendar the event components are handed on, property by
/// property; parameters, alarms and the other components are left behind.
#[verifier::external_body]
fn first_calendar(body: &[u8]) -> (r: CalendarBody)
    ensures
        r@ == ical_first_calendar(body@),
{
    match ical::IcalParser::new(body).next() {
        None => CalendarBody::Missing,
        Some(Err(_)) => CalendarBody::Unreadable,
        Some(Ok(calendar)) => CalendarBody::Calendar(
            calendar.events.into_iter().map(
                |e| CalendarEvent {
                    properties: e.properties.into_iter().map(
                        |p| Property { name: p.name, value: p.value },
                    ).collect(),
                },
            ).collect(),
        ),
    }
}

/// `regex::Regex::new` on `pattern`, then `regex::Regex::captures` on `text`:
/// the text of the first group, as [`regex_first_group`] names it.
#[verifier::external_body]
fn first_group(pattern: &str, text: &str) -> (r: Option<Option<String>>)
    ensures
        match r {
            Some(group) => regex_first_group(pattern@, text@) == Some(text_view(group)),
            None => regex_first_group(pattern@, text@) is None,
        },
{
    let regex = lazy_regex::Regex::new(pattern).ok()?;
    Some(regex.captures(text).map(|c| c.get(1).map_or("", |m| m.as_str()).to_string()))
}

/// The first property of `properties` that is called `name`.
pub open spec fn first_named(properties: Seq<PropertyView>, name: Seq<char>) -> Option<
    PropertyView,
>
    decreases properties.len(),
{
    if properties.len() == 0 {
        None
    } else if properties[0].name == name {
        Some(properties[0])
    } else {
        first_named(properties.drop_first(), name)
    }
}

/// The value of the first property of `properties` that is called `name`;
/// `None` where there is no such property or it has no value.
pub open spec fn value_named(properties: Seq<PropertyView>, name: Seq<char>) -> Option<
    Seq<char>,
> {
    match first_named(properties, name) {
        Some(p) => p.value,
        None => None,
    }
}

/// The first property of `properties` that is called `name`.
pub fn find_property<'a>(properties: &'a Vec<Property>, name: &str) -> (r: Option<&'a Property>)
    ensures
        match r {
            Some(p) => first_named(properties_view(properties@), name@) == Some(p@),
            None => first_named(properties_view(properties@), name@) is None,
        },
{
    let ghost all = properties_view(properties@);
    let mut i: usize = 0;
    assert(all.skip(0) == all);
    while i < properties.len()
        invariant
            i <= properties.len(),
            all == properties_view(properties@),
            first_named(all, name@) == first_named(all.skip(i as int), name@),
        decreases properties.len() - i,
    {
        let property = &properties[i];
        if same_text(property.name.as_str(), name) {
            return Some(property);
        }
        assert(all.skip(i as int).drop_first() == all.skip(i + 1));
        i += 1;
    }
    None
}

/// The category that a label stands for.
pub open spec fn category_of(label: Option<Seq<char>>) -> EventCategory {
    match label {
        Some(text) => {
            if text == "Yellow Category"@ {
                EventCategory::Yellow
            } else if text == "Green Category"@ {
                EventCategory::Green
            } else if text == "Red Category"@ {
                EventCategory::Red
            } else if text == "Blue Category"@ {
                EventCategory::Blue
            } else {
                EventCategory::Default
            }
        },
        None => EventCategory::Default,
    }
}

impl EventCategory {
    /// The category that a label stands for: one of four colours by its
    /// name, the default for any other label and for none.
    pub fn from_label(label: Option<&str>) -> (r: EventCategory)
        ensures
            r == category_of(
                match label {
                    Some(text) => Some(text@),
                    None => None,
                },
            ),
    {
        match label {
            Some(text) => {
                if same_text(text, "Yellow Category") {
                    EventCategory::Yellow
                } else if same_text(text, "Green Category") {
                    EventCategory::Green
                } else if same_text(text, "Red Category") {
                    EventCategory::Red
                } else if same_text(text, "Blue Category") {
                    EventCategory::Blue
                } else {
                    EventCategory::Default
                }
            },
            None => EventCategory::Default,
        }
    }
}

/// The name of the module in a summary that starts with a module code.
pub open spec fn module_name_of(summary: Seq<char>) -> Option<Seq<char>> {
    match regex_first_group(MODULE_CODE_PATTERN@, summary) {
        Some(Some(name)) => Some(name),
        _ => None,
    }
}

/// The name of the module in a summary that starts with a module code, or
/// `None` where the summary does not start with one.
pub fn guess_module_name(summary: &str) -> (r: Option<String>)
    ensures
        text_view(r) == module_name_of(summary@),
{
    match first_group(MODULE_CODE_PATTERN, summary) {
        Some(Some(name)) => Some(name),
        _ => None,
    }
}

/// The event that the properties of one component make, or `None` where
/// they make none.
pub open spec fn event_of(properties: Seq<PropertyView>) -> Option<EventView> {
    let category = first_named(properties, "CATEGORIES"@);
    let start = value_named(properties, "DTSTART"@);
    let end = value_named(properties, "DTEND"@);
    let description = value_named(properties, "DESCRIPTION"@);
    let summary = value_named(properties, "SUMMARY"@);
    let location = value_named(properties, "LOCATION"@);
    if category is Some && start is Some && end is Some && description is Some && summary is Some
        && location is Some {
        match (
            split_at_first(start->0, STAMP_SEPARATOR),
            split_at_first(end->0, STAMP_SEPARATOR),
        ) {
            (Some((date_text, start_text)), Some((_, end_text))) => {
                let date = ymd_of(parsed_date(date_text, DATE_FORMAT@));
                let start_time = hms_of(parsed_time(start_text, TIME_FORMAT@));
                let end_time = hms_of(parsed_time(end_text, TIME_FORMAT@));
                if date is Some && start_time is Some && end_time is Some {
                    Some(
                        EventView {
                            category: category_of(category->0.value),
                            date: date->0,
                            start_time: start_time->0,
                            end_time: end_time->0,
                            description: description->0,
                            summary: summary->0,
                            location: location->0,
                            module_name: module_name_of(summary->0),
                        },
                    )
                } else {
                    None
                }
            },
            _ => None,
        }
    } else {
        None
    }
}

/// What an event that may be absent holds.
pub open spec fn event_view(event: Option<Event>) -> Option<EventView> {
    match event {
        Some(e) => Some(e@),
        None => None,
    }
}

/// The value of the first property called `name`, where it has one.
fn find_value<'a>(properties: &'a Vec<Property>, name: &str) -> (r: Option<&'a String>)
    ensures
        match r {
            Some(value) => value_named(properties_view(properties@), name@) == Some(value@),
            None => value_named(properties_view(properties@), name@) is None,
        },
{
    match find_property(properties, name) {
        Some(property) => match &property.value {
            Some(value) => Some(value),
            None => None,
        },
        None => None,
    }
}

/// The event that the properties of one component make: its category, the
/// date and time of its start, the time of its end, its three texts and the
/// name of its module. `None` where a property is missing, where one other
/// than the category has no value, or where the start or the end cannot be
/// read.
pub fn event_from_properties(properties: &Vec<Property>) -> (r: Option<Event>)
    ensures
        event_view(r) == event_of(properties_view(properties@)),
{
    let category = match find_property(properties, "CATEGORIES") {
        Some(property) => match &property.value {
            Some(label) => EventCategory::from_label(Some(label.as_str())),
            None => EventCategory::from_label(None),
        },
        None => { return None; },
    };
    let start = match find_value(properties, "DTSTART") {
        Some(value) => value,
        None => { return None; },
    };
    let end = match find_value(properties, "DTEND") {
        Some(value) => value,
        None => { return None; },
    };
    let description = match find_value(properties, "DESCRIPTION") {
        Some(value) => value,
        None => { return None; },
    };
    let summary = match find_value(properties, "SUMMARY") {
        Some(value) => value,
        None => { return None; },
    };
    let location = match find_value(properties, "LOCATION") {
        Some(value) => value,
        None => { return None; },
    };
    let (start_date, start_time) = match split_once(start.as_str(), STAMP_SEPARATOR) {
        Some(parts) => parts,
        None => { return None; },
    };
    let end_time = match split_once(end.as_str(), STAMP_SEPARATOR) {
        Some(parts) => parts.1,
        None => { return None; },
    };
    let date = match read_date(start_date, DATE_FORMAT) {
        Some(date) => date,
        None => { return None; },
    };
    let start_time = match read_time(start_time, TIME_FORMAT) {
        Some(time) => time,
        None => { return None; },
    };
    let end_time = match read_time(end_time, TIME_FORMAT) {
        Some(time) => time,
        None => { return None; },
    };
    Some(
        Event {
            category,
            date,
            start_time,
            end_time,
            description: description.clone(),
            module_name: guess_module_name(summary.as_str()),
            summary: summary.clone(),
            location: location.clone(),
        },
    )
}

/// The events that start at the same moment as `key`.
pub open spec fn starting_with(key: EventView) -> spec_fn(EventView) -> bool {
    |e: EventView| e.starts_with(key)
}

/// Whether `sorted` holds the events of `events` in the order of their start,
/// those that start at the same moment in the order that they have in
/// `events`.
pub open spec fn is_stable_sort_of(sorted: Seq<EventView>, events: Seq<EventView>) -> bool {
    &&& sorted.len() == events.len()
    &&& sorted_by_start(sorted)
    &&& forall|key: EventView| #[trigger]
        sorted.filter(starting_with(key)) == events.filter(starting_with(key))
}

/// Whether `a` starts before `b`.
pub fn starts_before(a: &Event, b: &Event) -> (r: bool)
    ensures
        r == a@.starts_before(b@),
{
    a.date.is_before(&b.date) || (a.date.is_same(&b.date) && a.start_time.is_before(&b.start_time))
}

/// Nothing is left of a sequence where no item is wanted.
proof fn lemma_filter_of_unwanted(events: Seq<EventView>, wanted: spec_fn(EventView) -> bool)
    requires
        forall|i: int| 0 <= i < events.len() ==> !wanted(#[trigger] events[i]),
    ensures
        events.filter(wanted) == Seq::<EventView>::empty(),
    decreases events.len(),
{
    reveal(Seq::filter);
    if events.len() > 0 {
        lemma_filter_of_unwanted(events.drop_last(), wanted);
    }
}

/// An event put between those that start before it and those that do not
/// joins the events of its own start in front, and no others.
proof fn lemma_filter_of_insert(
    sorted: Seq<EventView>,
    at: int,
    event: EventView,
    key: EventView,
)
    requires
        0 <= at <= sorted.len(),
        forall|i: int| 0 <= i < at ==> (#[trigger] sorted[i]).starts_before(event),
    ensures
        sorted.insert(at, event).filter(starting_with(key)) == (seq![event] + sorted).filter(
            starting_with(key),
        ),
{
    let wanted = starting_with(key);
    let head = sorted.take(at);
    let tail = sorted.skip(at);
    assert(sorted.insert(at, event) == head + (seq![event] + tail));
    assert(sorted == head + tail);
    Seq::filter_distributes_over_add(head, seq![event] + tail, wanted);
    Seq::filter_distributes_over_add(head, tail, wanted);
    tail.lemma_filter_prepend(event, wanted);
    sorted.lemma_filter_prepend(event, wanted);
    if wanted(event) {
        lemma_filter_of_unwanted(head, wanted);
    }
}

/// Two sequences in the order of the start that hold, for each moment, the
/// same events of that start in the same order are one sequence.
proof fn lemma_same_order(a: Seq<EventView>, b: Seq<EventView>)
    requires
        a.len() == b.len(),
        sorted_by_start(a),
        sorted_by_start(b),
        forall|key: EventView| #[trigger] a.filter(starting_with(key)) == b.filter(starting_with(key)),
    ensures
        a == b,
    decreases a.len(),
{
    if a.len() > 0 {
        let last_a = a.last();
        let last_b = b.last();
        let front_a = a.drop_last();
        let front_b = b.drop_last();
        assert(a == front_a.push(last_a));
        assert(b == front_b.push(last_b));
        assert(!last_b.starts_before(last_a)) by {
            a.lemma_filter_contains(starting_with(last_a), a.len() - 1);
            b.lemma_filter_contains_rev(starting_with(last_a), last_a);
        }
        assert(!last_a.starts_before(last_b)) by {
            b.lemma_filter_contains(starting_with(last_b), b.len() - 1);
            a.lemma_filter_contains_rev(starting_with(last_b), last_b);
        }
        assert(last_a == last_b) by {
            front_a.lemma_filter_push(last_a, starting_with(last_a));
            front_b.lemma_filter_push(last_b, starting_with(last_a));
            let kept = a.filter(starting_with(last_a));
            assert(kept.last() == last_b);
        }
        assert forall|key: EventView| #[trigger]
            front_a.filter(starting_with(key)) == front_b.filter(starting_with(key)) by {
            front_a.lemma_filter_push(last_a, starting_with(key));
            front_b.lemma_filter_push(last_b, starting_with(key));
            let kept = a.filter(starting_with(key));
            if starting_with(key)(last_a) {
                assert(front_b.filter(starting_with(key)) == kept.drop_last());
            }
        }
        lemma_same_order(front_a, front_b);
    }
}

/// The order of a timetable is determined by its events: two sequences that
/// both hold the events of `events` in the order of their start, those of
/// the same start in the order that they have in `events`, are one sequence.
pub proof fn lemma_the_order_is_determined(
    first: Seq<EventView>,
    second: Seq<EventView>,
    events: Seq<EventView>,
)
    requires
        is_stable_sort_of(first, events),
        is_stable_sort_of(second, events),
    ensures
        first == second,
{
    lemma_same_order(first, second);
}

/// Events that are given in the order of their start stay as they are.
pub proof fn lemma_sorted_events_stay(sorted: Seq<EventView>, events: Seq<EventView>)
    requires
        sorted_by_start(events),
        is_stable_sort_of(sorted, events),
    ensures
        sorted == events,
{
    lemma_same_order(sorted, events);
}

/// The events in the order of their start; those that start at the same
/// moment keep the order in which they were given.
pub fn sort_events(events: Vec<Event>) -> (sorted: Vec<Event>)
    ensures
        is_stable_sort_of(events_view(sorted@), events_view(events@)),
{
    let ghost given = events_view(events@);
    let mut rest = events;
    let mut sorted: Vec<Event> = Vec::new();
    while rest.len() > 0
        invariant
            rest.len() <= given.len(),
            events_view(rest@) == given.take(rest.len() as int),
            sorted.len() + rest.len() == given.len(),
            sorted_by_start(events_view(sorted@)),
            forall|key: EventView| #[trigger]
                events_view(sorted@).filter(starting_with(key)) == given.skip(
                    rest.len() as int,
                ).filter(starting_with(key)),
        decreases rest.len(),
    {
        let ghost before = events_view(sorted@);
        let ghost left = rest.len() as int;
        let ghost unsorted = rest@;
        let event = rest.pop().unwrap();
        assert(event@ == given[left - 1]) by {
            assert(event@ == events_view(unsorted)[left - 1]);
        }
        let mut at: usize = 0;
        while at < sorted.len() && starts_before(&sorted[at], &event)
            invariant
                at <= sorted.len(),
                before == events_view(sorted@),
                forall|i: int| 0 <= i < at ==> (#[trigger] before[i]).starts_before(event@),
            decreases sorted.len() - at,
        {
            at += 1;
        }
        sorted.insert(at, event);
        proof {
            let after = events_view(sorted@);
            assert(after == before.insert(at as int, event@));
            assert(given.skip(left - 1) == seq![event@] + given.skip(left));
            assert forall|key: EventView| #[trigger]
                after.filter(starting_with(key)) == given.skip(left - 1).filter(
                    starting_with(key),
                ) by {
                lemma_filter_of_insert(before, at as int, event@, key);
                before.lemma_filter_prepend(event@, starting_with(key));
                given.skip(left).lemma_filter_prepend(event@, starting_with(key));
            }
            assert forall|i: int, j: int| 0 <= i < j < after.len() implies !after[j].starts_before(
                after[i],
            ) by {
                if i == at {
                    assert(!before[j - 1].starts_before(before[at as int]));
                }
            }
        }
    }
    proof {
        assert(given.skip(0) == given);
    }
    sorted
}

/// The events that the components make, where each of them makes one.
pub open spec fn events_of(components: Seq<Seq<PropertyView>>) -> Option<Seq<EventView>> {
    if forall|i: int| 0 <= i < components.len() ==> event_of(#[trigger] components[i]) is Some {
        Some(components.map_values(|properties: Seq<PropertyView>| event_of(properties)->0))
    } else {
        None
    }
}

/// What a list of events that may be absent holds.
pub open spec fn event_list_view(events: Option<Vec<Event>>) -> Option<Seq<EventView>> {
    match events {
        Some(list) => Some(events_view(list@)),
        None => None,
    }
}

/// The events that the components make, in the order of the components, or
/// `None` where one of them makes no event.
pub fn events_from_components(components: &Vec<CalendarEvent>) -> (r: Option<Vec<Event>>)
    ensures
        event_list_view(r) == events_of(components_view(components@)),
{
    let ghost given = components_view(components@);
    let ghost made = given.map_values(|properties: Seq<PropertyView>| event_of(properties)->0);
    let mut events: Vec<Event> = Vec::new();
    let mut i: usize = 0;
    while i < components.len()
        invariant
            i <= components.len(),
            given == components_view(components@),
            made == given.map_values(|properties: Seq<PropertyView>| event_of(properties)->0),
            forall|k: int| 0 <= k < i ==> event_of(#[trigger] given[k]) is Some,
            events_view(events@) == made.take(i as int),
        decreases components.len() - i,
    {
        assert(given[i as int] == properties_view(components[i as int].properties@));
        match event_from_properties(&components[i].properties) {
            Some(event) => {
                events.push(event);
                assert(made.take(i + 1) == made.take(i as int).push(made[i as int]));
            },
            None => {
                return None;
            },
        }
        i += 1;
    }
    Some(events)
}

/// Whether `result` is what the body of a calendar gives: an error where
/// there is no calendar, where it cannot be read, where it holds no event or
/// where one of its components makes no event, and else the events of its
/// components in the order of their start.
pub open spec fn is_extraction_of(
    result: Result<Seq<EventView>, GetTimetableError>,
    body: CalendarBodyView,
) -> bool {
    match body {
        CalendarBodyView::Missing => result == Err::<Seq<EventView>, _>(
            GetTimetableError::NotFound,
        ),
        CalendarBodyView::Unreadable => result == Err::<Seq<EventView>, _>(
            GetTimetableError::NotFound,
        ),
        CalendarBodyView::Calendar(components) => {
            if components.len() == 0 {
                result == Err::<Seq<EventView>, _>(GetTimetableError::EmptyTimetable)
            } else {
                match events_of(components) {
                    Some(events) => result matches Ok(sorted) && is_stable_sort_of(sorted, events),
                    None => result == Err::<Seq<EventView>, _>(GetTimetableError::NotFound),
                }
            }
        },
    }
}

/// A calendar with events, each of which has what an event needs, gives a
/// timetable with as many events as the calendar has, in the order of their
/// start.
pub proof fn lemma_every_event_is_kept(
    result: Result<Seq<EventView>, GetTimetableError>,
    components: Seq<Seq<PropertyView>>,
)
    requires
        is_extraction_of(result, CalendarBodyView::Calendar(components)),
        components.len() > 0,
        forall|i: int| 0 <= i < components.len() ==> event_of(#[trigger] components[i]) is Some,
    ensures
        result is Ok,
        result->Ok_0.len() == components.len(),
        sorted_by_start(result->Ok_0),
{
}

/// A calendar without events gives the error of an empty timetable, and a
/// document without a calendar that can be read the error that nothing was
/// found.
pub proof fn lemma_nothing_to_extract(result: Result<Seq<EventView>, GetTimetableError>)
    ensures
        is_extraction_of(result, CalendarBodyView::Calendar(Seq::empty())) ==> result == Err::<
            Seq<EventView>,
            _,
        >(GetTimetableError::EmptyTimetable),
        is_extraction_of(result, CalendarBodyView::Unreadable) ==> result == Err::<
            Seq<EventView>,
            _,
        >(GetTimetableError::NotFound),
        is_extraction_of(result, CalendarBodyView::Missing) ==> result == Err::<Seq<EventView>, _>(
            GetTimetableError::NotFound,
        ),
{
}

/// What a timetable or an error holds.
pub open spec fn outcome_view(outcome: Result<Timetable, GetTimetableError>) -> Result<
    Seq<EventView>,
    GetTimetableError,
> {
    match outcome {
        Ok(timetable) => Ok(timetable@),
        Err(error) => Err(error),
    }
}

impl Timetable {
    /// The timetable of the given events: the same events in the order of
    /// their start.
    pub fn from_events(events: Vec<Event>) -> (r: Timetable)
        ensures
            is_stable_sort_of(r@, events_view(events@)),
            r.is_sorted(),
    {
        Timetable { events: sort_events(events) }
    }

    /// The timetable that the body of a calendar gives.
    pub fn from_calendar(body: &CalendarBody) -> (r: Result<Timetable, GetTimetableError>)
        ensures
            is_extraction_of(outcome_view(r), body@),
            r matches Ok(timetable) ==> timetable.is_sorted(),
    {
        match body {
            CalendarBody::Missing => Err(GetTimetableError::NotFound),
            CalendarBody::Unreadable => Err(GetTimetableError::NotFound),
            CalendarBody::Calendar(components) => {
                if components.len() == 0 {
                    return Err(GetTimetableError::EmptyTimetable);
                }
                match events_from_components(components) {
                    Some(events) => Ok(Timetable::from_events(events)),
                    None => Err(GetTimetableError::NotFound),
                }
            },
        }
    }

    /// The timetable that an iCalendar document gives: the events of its
    /// first calendar in the order of their start.
    pub fn from_ical(document: &[u8]) -> (r: Result<Timetable, GetTimetableError>)
        ensures
            is_extraction_of(outcome_view(r), ical_first_calendar(document@)),
            r matches Ok(timetable) ==> timetable.is_sorted(),
    {
        let body = first_calendar(document);
        Timetable::from_calendar(&body)
    }
}

/// Where the timetable of an identifier is asked for: what stands before the
/// identifier.
pub const TIMETABLE_URL_HEAD: &'static str = "https://uais.cr.ktu.lt/ktuis/tv_rprt2.ical1?p=";

/// Where the timetable of an identifier is asked for: what stands after the
/// identifier.
pub const TIMETABLE_URL_TAIL: &'static str = "&t=basic.ics";

/// The two ends of fetching a timetable over the network: the address to
/// ask, and what the answer gives. The request itself is made elsewhere.
#[derive(Debug, Default)]
pub struct BlockingTimetableGetter {}

impl BlockingTimetableGetter {
    /// The address at which the timetable of `vidko` is asked for.
    pub fn url(&self, vidko: &str) -> (r: String)
        ensures
            r@ == TIMETABLE_URL_HEAD@ + vidko@ + TIMETABLE_URL_TAIL@,
    {
        let mut address = TIMETABLE_URL_HEAD.to_string();
        address.append(vidko);
        address.append(TIMETABLE_URL_TAIL);
        address
    }

    /// The timetable that the answer to a request gives: `response` holds
    /// the body of the answer, or nothing where the request failed.
    pub fn read(&self, response: Option<&[u8]>) -> (r: Result<Timetable, GetTimetableError>)
        ensures
            match response {
                Some(document) => is_extraction_of(
                    outcome_view(r),
                    ical_first_calendar(document@),
                ),
                None => r == Err::<Timetable, _>(GetTimetableError::NotFound),
            },
            r matches Ok(timetable) ==> timetable.is_sorted(),
    {
        match response {
            Some(document) => Timetable::from_ical(document),
            None => Err(GetTimetableError::NotFound),
        }
    }
}

} // verus!
