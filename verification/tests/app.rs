use ktu_timetable::app::get_current_week;
use ktu_timetable::app::get_future_week;
use ktu_timetable::app::Key;
use ktu_timetable::app::MainApp;
use ktu_timetable::app::Screen;
use ktu_timetable::app::MAX_FUTURE_WEEKS;
use ktu_timetable::calendar::Date;
use ktu_timetable::calendar::IsoWeek;
use ktu_timetable::calendar::TimeOfDay;
use ktu_timetable::config::Config;
use ktu_timetable::config::ConfigStore;
use ktu_timetable::config::LoadConfigError;
use ktu_timetable::config::MemoryConfigStore;
use ktu_timetable::config::SaveConfigError;
use ktu_timetable::environment::Environment;
use ktu_timetable::timetable::DummyTimetableGetter;
use ktu_timetable::timetable::Event;
use ktu_timetable::timetable::EventCategory;
use ktu_timetable::timetable::GetTimetableError;
use ktu_timetable::timetable::Timetable;
use ktu_timetable::timetable::TimetableGetter;
use std::cell::RefCell;
use std::rc::Rc;

struct FailingGetter {
    error: GetTimetableError,
}

impl TimetableGetter for FailingGetter {
    fn get(&self, _vidko: &str) -> Result<Timetable, GetTimetableError> {
        Err(self.error)
    }
}

struct PickyGetter {
    asked: Rc<RefCell<Vec<String>>>,
}

impl TimetableGetter for PickyGetter {
    fn get(&self, vidko: &str) -> Result<Timetable, GetTimetableError> {
        self.asked.borrow_mut().push(vidko.to_string());
        if vidko == "E1810" {
            Ok(term())
        } else if vidko == "E0000" {
            Err(GetTimetableError::EmptyTimetable)
        } else {
            Err(GetTimetableError::NotFound)
        }
    }
}

struct EmptyStore {}

impl ConfigStore for EmptyStore {
    fn load(&self) -> Result<Config, LoadConfigError> {
        Err(LoadConfigError::FileError("no such file".to_string()))
    }

    fn save(&self, _config: &Config) -> Result<(), SaveConfigError> {
        Err(SaveConfigError::FileError("read only".to_string()))
    }
}

struct RecordingStore {
    saved: Rc<RefCell<Vec<Option<String>>>>,
}

impl ConfigStore for RecordingStore {
    fn load(&self) -> Result<Config, LoadConfigError> {
        Err(LoadConfigError::NotFound)
    }

    fn save(&self, config: &Config) -> Result<(), SaveConfigError> {
        self.saved.borrow_mut().push(config.vidko.clone());
        Ok(())
    }
}

fn date(year: i32, month: u32, day: u32) -> Date {
    Date::from_ymd_opt(year, month, day).unwrap()
}

fn lesson(day: (i32, u32, u32), summary: &str) -> Event {
    Event {
        category: EventCategory::Default,
        date: date(day.0, day.1, day.2),
        start_time: TimeOfDay::from_hms_opt(9, 0, 0).unwrap(),
        end_time: TimeOfDay::from_hms_opt(10, 30, 0).unwrap(),
        description: String::new(),
        summary: summary.to_string(),
        location: String::new(),
        module_name: None,
    }
}

fn term() -> Timetable {
    Timetable {
        events: vec![
            lesson((2024, 1, 22), "week 4"),
            lesson((2024, 1, 29), "week 5, monday"),
            lesson((2024, 1, 31), "week 5, wednesday"),
            lesson((2024, 2, 5), "week 6"),
            lesson((2024, 12, 30), "week 1 of the next year"),
        ],
    }
}

fn shown(app: &MainApp) -> Vec<String> {
    app.shown_events().iter().map(|e| e.summary.clone()).collect()
}

fn with_identifier(today: Date) -> MainApp {
    MainApp::new(
        Box::new(MemoryConfigStore::new(Config { vidko: Some("E1810".to_string()) })),
        Box::new(DummyTimetableGetter::new(term())),
        today,
    )
}

#[test]
fn on_a_weekday_the_current_week_is_the_week_of_today() {
    assert_eq!(get_current_week(date(2024, 1, 29)), IsoWeek { year: 2024, week: 5 });
    assert_eq!(get_current_week(date(2024, 2, 2)), IsoWeek { year: 2024, week: 5 });
    assert_eq!(get_current_week(date(2024, 12, 30)), IsoWeek { year: 2025, week: 1 });
}

#[test]
fn on_a_saturday_or_sunday_the_current_week_is_the_next_week() {
    assert_eq!(get_current_week(date(2024, 2, 3)), IsoWeek { year: 2024, week: 6 });
    assert_eq!(get_current_week(date(2024, 2, 4)), IsoWeek { year: 2024, week: 6 });
    assert_eq!(get_current_week(date(2024, 12, 28)), IsoWeek { year: 2025, week: 1 });
    assert_eq!(get_current_week(date(2021, 1, 2)), IsoWeek { year: 2021, week: 1 });
}

#[test]
fn a_future_week_lies_as_many_weeks_after_the_current_week() {
    let today = date(2024, 1, 31);
    assert_eq!(get_future_week(today, 0), Some(IsoWeek { year: 2024, week: 5 }));
    assert_eq!(get_future_week(today, 1), Some(IsoWeek { year: 2024, week: 6 }));
    assert_eq!(get_future_week(today, 47), Some(IsoWeek { year: 2024, week: 52 }));
    assert_eq!(get_future_week(today, 48), Some(IsoWeek { year: 2025, week: 1 }));
    assert_eq!(get_future_week(date(2024, 2, 3), 48), Some(IsoWeek { year: 2025, week: 2 }));
    assert_eq!(get_future_week(today, u64::MAX), None);
    assert_eq!(get_future_week(today, u64::MAX / 7), None);
    assert_eq!(get_future_week(today, 100000000), None);
    assert_eq!(MAX_FUTURE_WEEKS, 48);
}

#[test]
fn a_new_application_shows_the_current_week_and_nothing_else() {
    let app = with_identifier(date(2024, 2, 3));
    assert_eq!(app.shown_week(), IsoWeek { year: 2024, week: 6 });
    assert!(app.shown_events().is_empty());
    assert!(app.timetable.is_none());
    assert!(app.config().is_none());
    assert_eq!(app.screen(), None);
    assert_eq!(app.vidko(), None);
}

#[test]
fn with_an_identifier_and_a_timetable_the_main_screen_is_shown() {
    let mut app = with_identifier(date(2024, 1, 31));
    app.init();
    assert_eq!(app.screen(), Some(Screen::Main));
    assert_eq!(app.vidko(), Some("E1810"));
    assert_eq!(app.timetable.as_ref().unwrap().events.len(), 5);
    assert_eq!(shown(&app), vec!["week 5, monday", "week 5, wednesday"]);
    assert_eq!(app.shown_week(), IsoWeek { year: 2024, week: 5 });
}

#[test]
fn without_a_configuration_the_identifier_is_asked_for() {
    let mut app = MainApp::new(
        Box::new(EmptyStore {}),
        Box::new(DummyTimetableGetter::new(term())),
        date(2024, 1, 31),
    );
    app.init();
    assert_eq!(app.screen(), Some(Screen::Vidko { get_error: None }));
    assert!(app.config().is_none());
    assert!(app.timetable.is_none());
    assert!(app.shown_events().is_empty());
}

#[test]
fn without_an_identifier_in_the_configuration_the_identifier_is_asked_for() {
    let asked = Rc::new(RefCell::new(Vec::new()));
    let mut app = MainApp::new(
        Box::new(MemoryConfigStore::new(Config::default())),
        Box::new(PickyGetter { asked: asked.clone() }),
        date(2024, 1, 31),
    );
    app.init();
    assert_eq!(app.screen(), Some(Screen::Vidko { get_error: None }));
    assert!(app.config().is_some());
    assert_eq!(app.vidko(), None);
    assert!(app.timetable.is_none());
    assert!(asked.borrow().is_empty());
}

#[test]
fn without_a_timetable_the_identifier_is_asked_for() {
    let mut app = MainApp::new(
        Box::new(MemoryConfigStore::new(Config { vidko: Some("E1810".to_string()) })),
        Box::new(FailingGetter { error: GetTimetableError::EmptyTimetable }),
        date(2024, 1, 31),
    );
    app.init();
    assert_eq!(app.screen(), Some(Screen::Vidko { get_error: None }));
    assert_eq!(app.vidko(), Some("E1810"));
    assert!(app.timetable.is_none());
    assert!(app.shown_events().is_empty());
}

#[test]
fn the_timetable_is_asked_for_by_the_identifier_of_the_configuration() {
    let asked = Rc::new(RefCell::new(Vec::new()));
    let mut app = MainApp::new(
        Box::new(MemoryConfigStore::new(Config { vidko: Some("E1810".to_string()) })),
        Box::new(PickyGetter { asked: asked.clone() }),
        date(2024, 1, 31),
    );
    app.init();
    assert_eq!(*asked.borrow(), vec!["E1810".to_string()]);
    assert!(app.refresh_timetable().is_ok());
    assert_eq!(*asked.borrow(), vec!["E1810".to_string(), "E1810".to_string()]);
    assert_eq!(shown(&app), vec!["week 5, monday", "week 5, wednesday"]);
}

#[test]
fn refreshing_without_an_identifier_drops_the_timetable() {
    let mut app = MainApp::new(
        Box::new(EmptyStore {}),
        Box::new(DummyTimetableGetter::new(term())),
        date(2024, 1, 31),
    );
    app.set_timetable(term());
    assert_eq!(shown(&app).len(), 2);
    assert_eq!(app.refresh_timetable(), Err(GetTimetableError::NotFound));
    assert!(app.timetable.is_none());
    assert!(app.shown_events().is_empty());
}

#[test]
fn a_failed_refresh_keeps_the_timetable() {
    let mut app = MainApp::new(
        Box::new(MemoryConfigStore::new(Config { vidko: Some("E1810".to_string()) })),
        Box::new(FailingGetter { error: GetTimetableError::EmptyTimetable }),
        date(2024, 1, 31),
    );
    app.init();
    app.set_timetable(term());
    assert_eq!(app.refresh_timetable(), Err(GetTimetableError::EmptyTimetable));
    assert!(app.timetable.is_some());
    assert_eq!(shown(&app), vec!["week 5, monday", "week 5, wednesday"]);
}

#[test]
fn what_the_source_gave_becomes_the_timetable() {
    let mut app = with_identifier(date(2024, 1, 31));
    assert_eq!(app.receive_timetable(Err(GetTimetableError::NotFound)), Err(GetTimetableError::NotFound));
    assert!(app.timetable.is_none());
    assert_eq!(app.receive_timetable(Ok(term())), Ok(()));
    assert_eq!(shown(&app), vec!["week 5, monday", "week 5, wednesday"]);
    assert_eq!(
        app.receive_timetable(Err(GetTimetableError::EmptyTimetable)),
        Err(GetTimetableError::EmptyTimetable)
    );
    assert_eq!(shown(&app), vec!["week 5, monday", "week 5, wednesday"]);
}

#[test]
fn what_the_source_gave_at_the_start_chooses_the_screen() {
    let mut app = with_identifier(date(2024, 1, 31));
    app.receive_start(None);
    assert_eq!(app.screen(), Some(Screen::Vidko { get_error: None }));
    assert!(app.timetable.is_none());
    app.receive_start(Some(Err(GetTimetableError::EmptyTimetable)));
    assert_eq!(app.screen(), Some(Screen::Vidko { get_error: None }));
    assert!(app.timetable.is_none());
    assert!(app.shown_events().is_empty());
    app.receive_start(Some(Ok(term())));
    assert_eq!(app.screen(), Some(Screen::Main));
    assert_eq!(shown(&app), vec!["week 5, monday", "week 5, wednesday"]);
    app.receive_start(Some(Err(GetTimetableError::NotFound)));
    assert_eq!(app.screen(), Some(Screen::Vidko { get_error: None }));
    assert_eq!(shown(&app), vec!["week 5, monday", "week 5, wednesday"]);
    assert!(app.timetable.is_some());
    app.receive_start(None);
    assert_eq!(app.screen(), Some(Screen::Vidko { get_error: None }));
    assert!(app.timetable.is_some());
}

#[test]
fn what_the_store_gave_becomes_the_configuration() {
    let mut app = with_identifier(date(2024, 1, 31));
    app.receive_config(Ok(Config { vidko: Some("E1810".to_string()) }));
    assert_eq!(app.vidko(), Some("E1810"));
    app.receive_config(Ok(Config { vidko: None }));
    assert_eq!(app.vidko(), None);
    assert!(app.config().is_some());
    app.receive_config(Err(LoadConfigError::NotFound));
    assert!(app.config().is_none());
}

#[test]
fn the_week_shown_moves_by_whole_weeks() {
    let mut app = with_identifier(date(2024, 1, 31));
    app.init();
    app.shift_shown_week(1);
    assert_eq!(app.shown_week(), IsoWeek { year: 2024, week: 6 });
    assert_eq!(shown(&app), vec!["week 6"]);
    app.shift_shown_week(-2);
    assert_eq!(app.shown_week(), IsoWeek { year: 2024, week: 4 });
    assert_eq!(shown(&app), vec!["week 4"]);
    app.shift_shown_week(0);
    assert_eq!(app.shown_week(), IsoWeek { year: 2024, week: 4 });
    app.shift_shown_week(49);
    assert_eq!(app.shown_week(), IsoWeek { year: 2025, week: 1 });
    assert_eq!(shown(&app), vec!["week 1 of the next year"]);
    app.shift_shown_week(-52);
    assert_eq!(app.shown_week(), IsoWeek { year: 2024, week: 1 });
    assert!(shown(&app).is_empty());
}

#[test]
fn a_shift_out_of_range_changes_nothing() {
    let mut app = with_identifier(date(2024, 1, 31));
    app.init();
    app.shift_shown_week(i32::MAX);
    assert_eq!(app.shown_week(), IsoWeek { year: 2024, week: 5 });
    app.shift_shown_week(i32::MIN);
    assert_eq!(app.shown_week(), IsoWeek { year: 2024, week: 5 });
    app.set_shown_week(IsoWeek { year: 2024, week: 53 });
    assert!(shown(&app).is_empty());
    app.shift_shown_week(1);
    assert_eq!(app.shown_week(), IsoWeek { year: 2024, week: 53 });
    app.shift_shown_week(-1);
    assert_eq!(app.shown_week(), IsoWeek { year: 2024, week: 53 });
}

#[test]
fn setting_the_week_shows_its_events() {
    let mut app = with_identifier(date(2024, 1, 31));
    app.set_shown_week(IsoWeek { year: 2024, week: 6 });
    assert!(shown(&app).is_empty());
    app.set_timetable(term());
    assert_eq!(shown(&app), vec!["week 6"]);
    app.set_shown_week(IsoWeek { year: 2024, week: 5 });
    assert_eq!(shown(&app), vec!["week 5, monday", "week 5, wednesday"]);
    app.set_shown_week(IsoWeek { year: 2030, week: 5 });
    assert!(shown(&app).is_empty());
}

#[test]
fn back_from_the_current_week_changes_nothing() {
    let today = date(2024, 1, 31);
    let mut app = with_identifier(today);
    app.init();
    app.key_pressed(Key::A, today);
    assert_eq!(app.shown_week(), IsoWeek { year: 2024, week: 5 });
    assert_eq!(shown(&app), vec!["week 5, monday", "week 5, wednesday"]);
    app.key_pressed(Key::D, today);
    app.key_pressed(Key::A, today);
    app.key_pressed(Key::A, today);
    assert_eq!(app.shown_week(), IsoWeek { year: 2024, week: 5 });
}

#[test]
fn forty_nine_weeks_forwards_are_forty_eight() {
    let today = date(2024, 1, 31);
    let mut app = with_identifier(today);
    app.init();
    for step in 1..=48u64 {
        app.key_pressed(Key::D, today);
        assert_eq!(Some(app.shown_week()), get_future_week(today, step));
    }
    assert_eq!(app.shown_week(), IsoWeek { year: 2025, week: 1 });
    assert_eq!(shown(&app), vec!["week 1 of the next year"]);
    app.key_pressed(Key::D, today);
    assert_eq!(app.shown_week(), IsoWeek { year: 2025, week: 1 });
    assert_eq!(Some(app.shown_week()), get_future_week(today, MAX_FUTURE_WEEKS));
    app.key_pressed(Key::D, today);
    assert_eq!(app.shown_week(), IsoWeek { year: 2025, week: 1 });
}

#[test]
fn a_week_after_the_last_cannot_be_left_forwards() {
    let today = date(2024, 1, 31);
    let mut app = with_identifier(today);
    app.init();
    app.set_shown_week(IsoWeek { year: 2026, week: 10 });
    app.key_pressed(Key::D, today);
    assert_eq!(app.shown_week(), IsoWeek { year: 2026, week: 10 });
    app.key_pressed(Key::A, today);
    assert_eq!(app.shown_week(), IsoWeek { year: 2026, week: 9 });
}

#[test]
fn a_week_before_the_current_cannot_be_left_backwards() {
    let today = date(2024, 1, 31);
    let mut app = with_identifier(today);
    app.init();
    app.set_shown_week(IsoWeek { year: 2024, week: 2 });
    app.key_pressed(Key::A, today);
    assert_eq!(app.shown_week(), IsoWeek { year: 2024, week: 2 });
    app.key_pressed(Key::D, today);
    assert_eq!(app.shown_week(), IsoWeek { year: 2024, week: 3 });
}

#[test]
fn the_key_for_today_shows_the_current_week() {
    let mut app = with_identifier(date(2024, 1, 31));
    app.init();
    app.key_pressed(Key::D, date(2024, 1, 31));
    app.key_pressed(Key::D, date(2024, 1, 31));
    assert_eq!(app.shown_week(), IsoWeek { year: 2024, week: 7 });
    app.key_pressed(Key::S, date(2024, 2, 3));
    assert_eq!(app.shown_week(), IsoWeek { year: 2024, week: 6 });
    assert_eq!(shown(&app), vec!["week 6"]);
    app.key_pressed(Key::S, date(2024, 1, 31));
    assert_eq!(app.shown_week(), IsoWeek { year: 2024, week: 5 });
}

#[test]
fn an_identifier_with_a_timetable_is_kept_and_the_main_screen_shown() {
    let asked = Rc::new(RefCell::new(Vec::new()));
    let mut app = MainApp::new(
        Box::new(EmptyStore {}),
        Box::new(PickyGetter { asked: asked.clone() }),
        date(2024, 1, 31),
    );
    app.init();
    assert_eq!(app.screen(), Some(Screen::Vidko { get_error: None }));
    app.submit_vidko("E1810");
    assert_eq!(*asked.borrow(), vec!["E1810".to_string()]);
    assert_eq!(app.screen(), Some(Screen::Main));
    assert_eq!(app.vidko(), Some("E1810"));
    assert_eq!(shown(&app), vec!["week 5, monday", "week 5, wednesday"]);
}

#[test]
fn an_identifier_without_a_timetable_shows_the_error() {
    let asked = Rc::new(RefCell::new(Vec::new()));
    let mut app = MainApp::new(
        Box::new(EmptyStore {}),
        Box::new(PickyGetter { asked: asked.clone() }),
        date(2024, 1, 31),
    );
    app.init();
    app.submit_vidko("nobody");
    assert_eq!(
        app.screen(),
        Some(Screen::Vidko { get_error: Some(GetTimetableError::NotFound) })
    );
    assert_eq!(app.vidko(), None);
    assert!(app.timetable.is_none());
    app.submit_vidko("E0000");
    assert_eq!(
        app.screen(),
        Some(Screen::Vidko { get_error: Some(GetTimetableError::EmptyTimetable) })
    );
    assert_eq!(*asked.borrow(), vec!["nobody".to_string(), "E0000".to_string()]);
    app.submit_vidko("E1810");
    assert_eq!(app.screen(), Some(Screen::Main));
}

#[test]
fn what_the_source_gave_for_a_typed_identifier() {
    let mut app = with_identifier(date(2024, 1, 31));
    app.receive_vidko("typed", Err(GetTimetableError::NotFound));
    assert_eq!(
        app.screen(),
        Some(Screen::Vidko { get_error: Some(GetTimetableError::NotFound) })
    );
    assert!(app.config().is_none());
    app.receive_vidko("typed", Ok(term()));
    assert_eq!(app.screen(), Some(Screen::Main));
    assert_eq!(app.vidko(), Some("typed"));
    assert_eq!(app.timetable.as_ref().unwrap().events.len(), 5);
}

#[test]
fn the_screens_are_switched() {
    let mut app = with_identifier(date(2024, 1, 31));
    app.switch_to_main();
    assert_eq!(app.screen(), Some(Screen::Main));
    app.switch_to_vidko();
    assert_eq!(app.screen(), Some(Screen::Vidko { get_error: None }));
}

#[test]
fn the_configuration_is_saved_on_exit() {
    let saved = Rc::new(RefCell::new(Vec::new()));
    let mut app = MainApp::new(
        Box::new(RecordingStore { saved: saved.clone() }),
        Box::new(DummyTimetableGetter::new(term())),
        date(2024, 1, 31),
    );
    app.init();
    assert!(app.on_exit().is_ok());
    assert!(saved.borrow().is_empty());
    app.submit_vidko("E1810");
    assert!(app.on_exit().is_ok());
    assert_eq!(*saved.borrow(), vec![Some("E1810".to_string())]);
}

#[test]
fn an_error_of_the_store_on_exit_is_handed_on() {
    let mut app = MainApp::new(
        Box::new(EmptyStore {}),
        Box::new(DummyTimetableGetter::new(term())),
        date(2024, 1, 31),
    );
    assert!(app.on_exit().is_ok());
    app.submit_vidko("E1810");
    assert_eq!(app.on_exit().err().unwrap().message(), "File error: read only");
}

#[test]
fn an_environment_holds_the_two_collaborators() {
    let environment = Environment {
        timetable_getter: Box::new(DummyTimetableGetter::new(term())),
        config_store: Box::new(MemoryConfigStore::new(Config { vidko: Some("E1810".to_string()) })),
    };
    let mut app =
        MainApp::new(environment.config_store, environment.timetable_getter, date(2024, 1, 31));
    app.init();
    assert_eq!(app.screen(), Some(Screen::Main));
}
