//! What is kept between two runs, and where it is kept.

use crate::text::clone_text;
use crate::text::text_view;
use vstd::prelude::*;

verus! {

/// What is kept between two runs: the identifier of the timetable.
#[derive(Debug)]
pub struct Config {
    pub vidko: Option<String>,
}

impl View for Config {
    type V = Option<Seq<char>>;

    open spec fn view(&self) -> Option<Seq<char>> {
        text_view(self.vidko)
    }
}

impl Clone for Config {
    fn clone(&self) -> (r: Config)
        ensures
            r == *self,
    {
        Config { vidko: clone_text(&self.vidko) }
    }
}

impl Default for Config {
    fn default() -> (r: Config)
        ensures
            r.vidko is None,
    {
        Config { vidko: None }
    }
}

/// What a configuration that may be absent holds.
pub open spec fn config_view(config: Option<Config>) -> Option<Option<Seq<char>>> {
    match config {
        Some(c) => Some(c@),
        None => None,
    }
}

/// Why no configuration could be loaded. The two errors of the file system
/// and of the reader are kept as their text.
#[derive(Debug)]
pub enum LoadConfigError {
    NotFound,
    FileError(String),
    TomlError(String),
}

impl LoadConfigError {
    /// The text of the error.
    pub open spec fn text(self) -> Seq<char> {
        match self {
            LoadConfigError::FileError(e) => "File error: "@ + e@,
            LoadConfigError::TomlError(e) => "Toml error: "@ + e@,
            LoadConfigError::NotFound => "Not found"@,
        }
    }

    /// The text of the error.
    pub fn message(&self) -> (r: String)
        ensures
            r@ == self.text(),
    {
        match self {
            LoadConfigError::FileError(e) => "File error: ".to_string().concat(e.as_str()),
            LoadConfigError::TomlError(e) => "Toml error: ".to_string().concat(e.as_str()),
            LoadConfigError::NotFound => "Not found".to_string(),
        }
    }
}

/// Why a configuration could not be saved. The two errors of the file system
/// and of the writer are kept as their text.
#[derive(Debug)]
pub enum SaveConfigError {
    FileError(String),
    TomlError(String),
}

impl SaveConfigError {
    /// The text of the error.
    pub open spec fn text(self) -> Seq<char> {
        match self {
            SaveConfigError::FileError(e) => "File error: "@ + e@,
            SaveConfigError::TomlError(e) => "Toml error: "@ + e@,
        }
    }

    /// The text of the error.
    pub fn message(&self) -> (r: String)
        ensures
            r@ == self.text(),
    {
        match self {
            SaveConfigError::FileError(e) => "File error: ".to_string().concat(e.as_str()),
            SaveConfigError::TomlError(e) => "Toml error: ".to_string().concat(e.as_str()),
        }
    }
}

/// A place where the configuration is kept.
pub trait ConfigStore {
    /// The configuration that is kept there.
    fn load(&self) -> Result<Config, LoadConfigError>;

    /// Keeps `config` there.
    fn save(&self, config: &Config) -> Result<(), SaveConfigError>;
}

/// A store that holds its configuration in memory and keeps nothing that it
/// is given to save.
#[derive(Debug)]
pub struct MemoryConfigStore {
    config: Option<Config>,
}

impl MemoryConfigStore {
    /// A store that holds `config`.
    pub fn new(config: Config) -> (r: MemoryConfigStore)
        ensures
            r.held() == Some(config),
    {
        MemoryConfigStore { config: Some(config) }
    }

    /// The configuration that the store holds.
    pub closed spec fn held(self) -> Option<Config> {
        self.config
    }
}

impl ConfigStore for MemoryConfigStore {
    fn load(&self) -> (r: Result<Config, LoadConfigError>)
        ensures
            match self.held() {
                Some(config) => r == Ok::<Config, LoadConfigError>(config),
                None => r == Err::<Config, LoadConfigError>(LoadConfigError::NotFound),
            },
    {
        match &self.config {
            Some(config) => Ok(config.clone()),
            None => Err(LoadConfigError::NotFound),
        }
    }

    fn save(&self, config: &Config) -> (r: Result<(), SaveConfigError>)
        ensures
            r is Ok,
    {
        Ok(())
    }
}

} // verus!
