use ktu_timetable::config::Config;
use ktu_timetable::config::ConfigStore;
use ktu_timetable::config::LoadConfigError;
use ktu_timetable::config::MemoryConfigStore;
use ktu_timetable::config::SaveConfigError;

#[test]
fn the_default_configuration_has_no_identifier() {
    assert_eq!(Config::default().vidko, None);
}

#[test]
fn a_copy_of_a_configuration_holds_its_identifier() {
    let config = Config { vidko: Some("E1810".to_string()) };
    assert_eq!(config.clone().vidko, Some("E1810".to_string()));
    assert_eq!(Config { vidko: None }.clone().vidko, None);
}

#[test]
fn the_memory_store_gives_the_configuration_that_it_was_made_with() {
    let store = MemoryConfigStore::new(Config { vidko: Some("E1810".to_string()) });
    assert_eq!(store.load().unwrap().vidko, Some("E1810".to_string()));
    assert_eq!(store.load().unwrap().vidko, Some("E1810".to_string()));
    let empty = MemoryConfigStore::new(Config::default());
    assert_eq!(empty.load().unwrap().vidko, None);
}

#[test]
fn the_memory_store_keeps_nothing_that_it_saves() {
    let store = MemoryConfigStore::new(Config { vidko: Some("E1810".to_string()) });
    assert!(store.save(&Config { vidko: Some("other".to_string()) }).is_ok());
    assert_eq!(store.load().unwrap().vidko, Some("E1810".to_string()));
}

#[test]
fn the_texts_of_the_load_errors() {
    assert_eq!(LoadConfigError::NotFound.message(), "Not found");
    assert_eq!(
        LoadConfigError::FileError("no such file".to_string()).message(),
        "File error: no such file"
    );
    assert_eq!(
        LoadConfigError::TomlError("expected an equals".to_string()).message(),
        "Toml error: expected an equals"
    );
}

#[test]
fn the_texts_of_the_save_errors() {
    assert_eq!(
        SaveConfigError::FileError("disk full".to_string()).message(),
        "File error: disk full"
    );
    assert_eq!(SaveConfigError::TomlError("".to_string()).message(), "Toml error: ");
}
