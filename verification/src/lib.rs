//! A university timetable: calendar extraction, week selection and the
//! geometry of a Monday-to-Friday week grid.

pub mod app;
pub mod axis;
pub mod calendar;
pub mod config;
pub mod environment;
pub mod events_table;
pub mod extractor;
pub mod geometry;
pub mod icon;
pub mod text;
pub mod tiles;
pub mod timetable;
