//! The state of the application: the week that is shown, the timetable, the
//! configuration and the screen, and how each event changes them.
//!
//! Nothing here reads a clock, a key or a file: the day of today, the key
//! that was pressed and the identifier that was typed are handed in.

use crate::calendar::is_weekend;
use crate::calendar::Date;
use crate::calendar::IsoWeek;
use crate::calendar::Ymd;
use crate::config::config_view;
use crate::config::Config;
use crate::config::ConfigStore;
use crate::config::LoadConfigError;
use crate::config::SaveConfigError;
use crate::extractor::outcome_view;
use crate::timetable::events_view;
use crate::timetable::in_week;
use crate::timetable::Event;
use crate::timetable::EventView;
use crate::timetable::GetTimetableError;
use crate::timetable::Timetable;
use crate::timetable::TimetableGetter;
use vstd::prelude::*;

verus! {

/// How many weeks after the current week the last week lies that can be
/// shown.
pub const MAX_FUTURE_WEEKS: u64 = 48;

/// The current week on the day `today`: the week of that day, but on a
/// Saturday or Sunday the week after it. Where the day a week later is out
/// of range, the week of `today` itself.
pub open spec fn current_week_of(today: Ymd) -> IsoWeek {
    if today.is_weekend() {
        match today.plus_days(7) {
            Some(later) => later.iso_week(),
            None => today.iso_week(),
        }
    } else {
        today.iso_week()
    }
}

/// The week that lies `week_offset` weeks after the current week: the week
/// of the day that many times seven days after the Monday of the current
/// week. `None` where that Monday or that day is out of range.
pub open spec fn future_week_of(today: Ymd, week_offset: int) -> Option<IsoWeek> {
    match current_week_of(today).spec_monday() {
        Some(monday) => {
            if 7 * week_offset <= u64::MAX {
                match monday.plus_days(7 * week_offset) {
                    Some(day) => Some(day.iso_week()),
                    None => None,
                }
            } else {
                None
            }
        },
        None => None,
    }
}

/// The week reached from `week` by `shift` weeks, forwards or, below zero,
/// backwards: the week of the day that many times seven days from the
/// Monday of `week`. `None` where that Monday or that day is out of range.
pub open spec fn shifted_week(week: IsoWeek, shift: int) -> Option<IsoWeek> {
    match week.spec_monday() {
        Some(monday) => {
            let day = if shift > 0 {
                monday.plus_days(7 * shift)
            } else {
                monday.minus_days(7 * (-shift))
            };
            match day {
                Some(day) => Some(day.iso_week()),
                None => None,
            }
        },
        None => None,
    }
}

/// The current week on the day `today`.
pub fn get_current_week(today: Date) -> (r: IsoWeek)
    ensures
        r == current_week_of(today@),
{
    if is_weekend(today) {
        match today.checked_add_days(7) {
            Some(later) => later.iso_week(),
            None => today.iso_week(),
        }
    } else {
        today.iso_week()
    }
}

/// The week that lies `week_offset` weeks after the current week.
pub fn get_future_week(today: Date, week_offset: u64) -> (r: Option<IsoWeek>)
    ensures
        r == future_week_of(today@, week_offset as int),
{
    let monday = match get_current_week(today).monday() {
        Some(monday) => monday,
        None => { return None; },
    };
    if week_offset > u64::MAX / 7 {
        return None;
    }
    match monday.checked_add_days(7 * week_offset) {
        Some(day) => Some(day.iso_week()),
        None => None,
    }
}

/// What the application shows.
#[derive(Clone, Copy, Debug, PartialEq, Eq, Structural)]
pub enum Screen {
    /// The table of the week.
    Main,
    /// The request for an identifier, with the error of the last attempt.
    Vidko { get_error: Option<GetTimetableError> },
}

/// A key that moves the week that is shown.
#[derive(Clone, Copy, Debug, PartialEq, Eq, Structural)]
pub enum Key {
    /// One week forwards.
    D,
    /// One week backwards.
    A,
    /// To the current week.
    S,
}

/// The application.
pub struct MainApp {
    shown_week: IsoWeek,
    shown_events: Vec<Event>,
    timetable_getter: Box<dyn TimetableGetter>,
    pub timetable: Option<Timetable>,
    config_store: Box<dyn ConfigStore>,
    config: Option<Config>,
    screen: Option<Screen>,
}

/// What a [`MainApp`] holds, but for its two collaborators.
pub struct MainAppView {
    pub shown_week: IsoWeek,
    pub shown_events: Seq<EventView>,
    pub timetable: Option<Seq<EventView>>,
    /// The configuration, where there is one, and in it the identifier,
    /// where it has one.
    pub config: Option<Option<Seq<char>>>,
    pub screen: Option<Screen>,
}

impl View for MainApp {
    type V = MainAppView;

    closed spec fn view(&self) -> MainAppView {
        MainAppView {
            shown_week: self.shown_week,
            shown_events: events_view(self.shown_events@),
            timetable: match self.timetable {
                Some(timetable) => Some(timetable@),
                None => None,
            },
            config: config_view(self.config),
            screen: self.screen,
        }
    }
}

impl MainAppView {
    /// The identifier of the configuration.
    pub open spec fn vidko(self) -> Option<Seq<char>> {
        match self.config {
            Some(Some(vidko)) => Some(vidko),
            _ => None,
        }
    }

    /// Whether the events shown are those of the timetable that lie in the
    /// week shown.
    pub open spec fn shows_its_week(self) -> bool {
        match self.timetable {
            Some(timetable) => self.shown_events == timetable.filter(in_week(self.shown_week)),
            None => true,
        }
    }

    /// The state with the timetable `timetable`.
    pub open spec fn with_timetable(self, timetable: Seq<EventView>) -> MainAppView {
        MainAppView {
            shown_events: timetable.filter(in_week(self.shown_week)),
            timetable: Some(timetable),
            ..self
        }
    }

    /// The state with no timetable and no events.
    pub open spec fn without_timetable(self) -> MainAppView {
        MainAppView { shown_events: Seq::empty(), timetable: None, ..self }
    }

    /// The state that shows the week `week`.
    pub open spec fn with_week(self, week: IsoWeek) -> MainAppView {
        MainAppView {
            shown_week: week,
            shown_events: match self.timetable {
                Some(timetable) => timetable.filter(in_week(week)),
                None => self.shown_events,
            },
            ..self
        }
    }

    /// The state with the configuration `config`.
    pub open spec fn with_config(self, config: Option<Option<Seq<char>>>) -> MainAppView {
        MainAppView { config, ..self }
    }

    /// The state with the screen `screen`.
    pub open spec fn with_screen(self, screen: Screen) -> MainAppView {
        MainAppView { screen: Some(screen), ..self }
    }

    /// The state after a shift of `shift` weeks: unchanged where the shift
    /// leads out of range.
    pub open spec fn shifted(self, shift: int) -> MainAppView {
        match shifted_week(self.shown_week, shift) {
            Some(week) => self.with_week(week),
            None => self,
        }
    }

    /// The state after the key `key` on the day `today`. Forwards goes one
    /// week on, while the week shown lies before the last week that can be
    /// shown; backwards goes one week back, while the current week lies
    /// before the week shown; today goes to the current week.
    pub open spec fn after_key(self, key: Key, today: Ymd) -> MainAppView {
        match key {
            Key::D => match future_week_of(today, MAX_FUTURE_WEEKS as int) {
                Some(last) => if self.shown_week.before(last) {
                    self.shifted(1)
                } else {
                    self
                },
                None => self,
            },
            Key::A => if current_week_of(today).before(self.shown_week) {
                self.shifted(-1)
            } else {
                self
            },
            Key::S => self.with_week(current_week_of(today)),
        }
    }

    /// The state after the answer `fetched` to a request for the timetable
    /// of the identifier of the configuration: with the timetable, or
    /// unchanged after an error.
    pub open spec fn received(self, fetched: Result<Seq<EventView>, GetTimetableError>)
        -> MainAppView {
        match fetched {
            Ok(timetable) => self.with_timetable(timetable),
            Err(_) => self,
        }
    }

    /// The state after the start, where `fetched` is the answer to the
    /// request for the timetable of the identifier of the configuration, or
    /// nothing where there was no identifier to ask with: with the timetable
    /// and the main screen, or else with the screen that asks for an
    /// identifier, and no error on it.
    pub open spec fn started(self, fetched: Option<Result<Seq<EventView>, GetTimetableError>>)
        -> MainAppView {
        match fetched {
            Some(Ok(timetable)) => self.with_timetable(timetable).with_screen(Screen::Main),
            _ => self.with_screen(Screen::Vidko { get_error: None }),
        }
    }

    /// The state after the answer `fetched` to a request for the timetable
    /// of the identifier `vidko` that was typed: with the identifier, the
    /// timetable and the main screen, or with the error on the screen that
    /// asks for the identifier.
    pub open spec fn submitted(
        self,
        vidko: Seq<char>,
        fetched: Result<Seq<EventView>, GetTimetableError>,
    ) -> MainAppView {
        match fetched {
            Ok(timetable) => MainAppView {
                config: Some(Some(vidko)),
                screen: Some(Screen::Main),
                ..self.with_timetable(timetable)
            },
            Err(error) => self.with_screen(Screen::Vidko { get_error: Some(error) }),
        }
    }
}

/// What the answer to a request at the start holds, where there was one.
pub open spec fn start_view(fetched: Option<Result<Timetable, GetTimetableError>>) -> Option<
    Result<Seq<EventView>, GetTimetableError>,
> {
    match fetched {
        Some(outcome) => Some(outcome_view(outcome)),
        None => None,
    }
}

/// Going backwards from the current week, or from a week before it, changes
/// nothing.
pub proof fn lemma_no_week_before_the_current(state: MainAppView, today: Ymd)
    requires
        !current_week_of(today).before(state.shown_week),
    ensures
        state.after_key(Key::A, today) == state,
{
}

/// Going forwards from the last week that can be shown, or from a week
/// after it, changes nothing.
pub proof fn lemma_no_week_after_the_last(state: MainAppView, today: Ymd, last: IsoWeek)
    requires
        future_week_of(today, MAX_FUTURE_WEEKS as int) == Some(last),
        !state.shown_week.before(last),
    ensures
        state.after_key(Key::D, today) == state,
{
}

/// Whatever the key, the events shown stay those of the week shown.
pub proof fn lemma_keys_keep_the_week_shown(state: MainAppView, key: Key, today: Ymd)
    requires
        state.shows_its_week(),
    ensures
        state.after_key(key, today).shows_its_week(),
{
}

impl MainApp {
    /// The application on the day `today`: it shows the current week, and
    /// has no timetable, no configuration and no screen yet.
    pub fn new(
        config_store: Box<dyn ConfigStore>,
        timetable_getter: Box<dyn TimetableGetter>,
        today: Date,
    ) -> (r: MainApp)
        ensures
            r@ == (MainAppView {
                shown_week: current_week_of(today@),
                shown_events: Seq::empty(),
                timetable: None,
                config: None,
                screen: None,
            }),
    {
        let app = MainApp {
            timetable: None,
            shown_week: get_current_week(today),
            shown_events: Vec::new(),
            config_store,
            config: None,
            timetable_getter,
            screen: None,
        };
        assert(events_view(app.shown_events@) == Seq::<EventView>::empty());
        app
    }

    /// What the configuration store gave becomes the configuration; none
    /// after an error.
    pub fn receive_config(&mut self, loaded: Result<Config, LoadConfigError>)
        ensures
            final(self)@ == old(self)@.with_config(
                match loaded {
                    Ok(config) => Some(config@),
                    Err(_) => None,
                },
            ),
    {
        self.config = match loaded {
            Ok(config) => Some(config),
            Err(_) => None,
        };
    }

    /// What the source of timetables gave at the start, or nothing where
    /// there was no identifier to ask with: with a timetable it is taken and
    /// the main screen shown, else the screen that asks for an identifier.
    pub fn receive_start(&mut self, fetched: Option<Result<Timetable, GetTimetableError>>)
        ensures
            final(self)@ == old(self)@.started(start_view(fetched)),
    {
        match fetched {
            Some(Ok(timetable)) => {
                self.set_timetable(timetable);
                self.switch_to_main();
            },
            _ => {
                self.switch_to_vidko();
            },
        }
    }

    /// Loads the configuration and, where it holds an identifier, asks for
    /// the timetable of that identifier. What the store gave is taken as
    /// [`MainApp::receive_config`] says, and then what the source gave as
    /// [`MainApp::receive_start`] says: the main screen is shown with the
    /// timetable that came, and the screen that asks for an identifier
    /// where none came or none was asked for.
    pub fn init(&mut self)
        ensures
            final(self)@.vidko() is None ==> final(self)@.screen != Some(Screen::Main),
            final(self)@.screen == Some(Screen::Main) ==> final(self)@.timetable is Some,
            final(self)@ == old(self)@.with_config(final(self)@.config).started(
                if final(self)@.screen == Some(Screen::Main) {
                    Some(Ok(final(self)@.timetable->0))
                } else {
                    None
                },
            ),
    {
        let loaded = self.config_store.load();
        self.receive_config(loaded);
        let fetched = match self.vidko() {
            Some(vidko) => Some(self.timetable_getter.get(vidko)),
            None => None,
        };
        self.receive_start(fetched);
    }

    /// Shows the main screen.
    pub fn switch_to_main(&mut self)
        ensures
            final(self)@ == old(self)@.with_screen(Screen::Main),
    {
        self.screen = Some(Screen::Main);
    }

    /// Shows the screen that asks for an identifier, with no error on it.
    pub fn switch_to_vidko(&mut self)
        ensures
            final(self)@ == old(self)@.with_screen(Screen::Vidko { get_error: None }),
    {
        self.screen = Some(Screen::Vidko { get_error: None });
    }

    /// The identifier of the configuration.
    pub fn vidko(&self) -> (r: Option<&str>)
        ensures
            match r {
                Some(vidko) => self@.vidko() == Some(vidko@),
                None => self@.vidko() is None,
            },
    {
        match &self.config {
            Some(config) => match &config.vidko {
                Some(vidko) => Some(vidko.as_str()),
                None => None,
            },
            None => None,
        }
    }

    /// The week that is shown.
    pub fn shown_week(&self) -> (r: IsoWeek)
        ensures
            r == self@.shown_week,
    {
        self.shown_week
    }

    /// The events that are shown.
    pub fn shown_events(&self) -> (r: &Vec<Event>)
        ensures
            events_view(r@) == self@.shown_events,
    {
        &self.shown_events
    }

    /// The screen that is shown.
    pub fn screen(&self) -> (r: Option<Screen>)
        ensures
            r == self@.screen,
    {
        self.screen
    }

    /// The configuration.
    pub fn config(&self) -> (r: &Option<Config>)
        ensures
            config_view(*r) == self@.config,
    {
        &self.config
    }

    /// What the source of timetables gave becomes the timetable, and its
    /// events of the week shown are shown; after an error nothing changes.
    pub fn receive_timetable(&mut self, fetched: Result<Timetable, GetTimetableError>) -> (r:
        Result<(), GetTimetableError>)
        ensures
            final(self)@ == old(self)@.received(outcome_view(fetched)),
            match fetched {
                Ok(_) => r is Ok,
                Err(error) => r == Err::<(), _>(error),
            },
    {
        match fetched {
            Ok(timetable) => {
                self.set_timetable(timetable);
                Ok(())
            },
            Err(error) => Err(error),
        }
    }

    /// Asks the source of timetables for the timetable of the identifier of
    /// the configuration. Without an identifier the timetable and the events
    /// shown are dropped, and the error is that none was found.
    pub fn refresh_timetable(&mut self) -> (r: Result<(), GetTimetableError>)
        ensures
            match r {
                Ok(_) => old(self)@.vidko() is Some && final(self)@.timetable is Some && final(self)@ == old(self)@.with_timetable(final(self)@.timetable->0),
                Err(error) => if old(self)@.vidko() is None {
                    error == GetTimetableError::NotFound && final(self)@ == old(self)@.without_timetable()
                } else {
                    final(self)@ == old(self)@
                },
            },
    {
        let fetched = match self.vidko() {
            Some(vidko) => self.timetable_getter.get(vidko),
            None => {
                self.shown_events = Vec::new();
                self.timetable = None;
                assert(events_view(self.shown_events@) == Seq::<EventView>::empty());
                return Err(GetTimetableError::NotFound);
            },
        };
        self.receive_timetable(fetched)
    }

    /// Takes `timetable` as the timetable and shows its events of the week
    /// shown.
    pub fn set_timetable(&mut self, timetable: Timetable)
        ensures
            final(self)@ == old(self)@.with_timetable(timetable@),
    {
        self.shown_events = timetable.by_week(self.shown_week);
        self.timetable = Some(timetable);
    }

    /// Moves the week shown by `shift` weeks, forwards or, below zero,
    /// backwards. Nothing changes where that leads out of range.
    pub fn shift_shown_week(&mut self, shift: i32)
        ensures
            final(self)@ == old(self)@.shifted(shift as int),
    {
        let monday = match self.shown_week.monday() {
            Some(monday) => monday,
            None => { return ; },
        };
        let shifted = if shift > 0 {
            monday.checked_add_days(7 * (shift as u64))
        } else {
            monday.checked_sub_days((7 * -(shift as i64)) as u64)
        };
        match shifted {
            Some(day) => {
                self.set_shown_week(day.iso_week());
            },
            None => {},
        }
    }

    /// Shows the week `week`, and the events of the timetable that lie in
    /// it.
    pub fn set_shown_week(&mut self, week: IsoWeek)
        ensures
            final(self)@ == old(self)@.with_week(week),
    {
        self.shown_week = week;
        match &self.timetable {
            Some(timetable) => {
                self.shown_events = timetable.by_week(week);
            },
            None => {},
        }
    }

    /// What a key does on the day `today`.
    pub fn key_pressed(&mut self, key: Key, today: Date)
        ensures
            final(self)@ == old(self)@.after_key(key, today@),
    {
        match key {
            Key::D => {
                match get_future_week(today, MAX_FUTURE_WEEKS) {
                    Some(last) => {
                        if self.shown_week.is_before(&last) {
                            self.shift_shown_week(1);
                        }
                    },
                    None => {},
                }
            },
            Key::A => {
                if get_current_week(today).is_before(&self.shown_week) {
                    self.shift_shown_week(-1);
                }
            },
            Key::S => {
                self.set_shown_week(get_current_week(today));
            },
        }
    }

    /// What the source of timetables gave for the identifier `vidko` that
    /// was typed: the timetable, with which the identifier is kept and the
    /// main screen shown, or an error, which is shown.
    pub fn receive_vidko(&mut self, vidko: &str, fetched: Result<Timetable, GetTimetableError>)
        ensures
            final(self)@ == old(self)@.submitted(vidko@, outcome_view(fetched)),
    {
        match fetched {
            Ok(timetable) => {
                self.config = Some(Config { vidko: Some(vidko.to_string()) });
                self.set_timetable(timetable);
                self.switch_to_main();
            },
            Err(error) => {
                self.screen = Some(Screen::Vidko { get_error: Some(error) });
            },
        }
    }

    /// Asks the source of timetables for the timetable of the identifier
    /// `vidko` that was typed, and takes what it gives: either the main
    /// screen is shown with the timetable, or the error is shown.
    pub fn submit_vidko(&mut self, vidko: &str)
        ensures
            match final(self)@.screen {
                Some(Screen::Main) => final(self)@.timetable is Some && final(self)@ == old(self)@.submitted(vidko@, Ok(final(self)@.timetable->0)),
                Some(Screen::Vidko { get_error: Some(error) }) => final(self)@ == old(self)@.submitted(vidko@, Err(error)),
                _ => false,
            },
    {
        let fetched = self.timetable_getter.get(vidko);
        self.receive_vidko(vidko, fetched);
    }

    /// Saves the configuration, where there is one.
    pub fn on_exit(&self) -> (r: Result<(), SaveConfigError>)
        ensures
            self@.config is None ==> r is Ok,
    {
        match &self.config {
            Some(config) => self.config_store.save(config),
            None => Ok(()),
        }
    }
}

} // verus!
