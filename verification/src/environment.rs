//! What the application is given to work with.

use crate::config::ConfigStore;
use crate::timetable::TimetableGetter;
use vstd::prelude::*;

verus! {

/// The two collaborators of the application: where timetables come from and
/// where the configuration is kept.
pub struct Environment {
    pub timetable_getter: Box<dyn TimetableGetter>,
    pub config_store: Box<dyn ConfigStore>,
}

} // verus!
