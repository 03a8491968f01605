//! A personal calendar: recurring events expanded into dated occurrences, a
//! windowed cache of those occurrences, and the parsing and completion of
//! day/month text typed by the user; around them the state of an interactive
//! session and what each key does to it, the events that a daemon announces,
//! the files that store events, and the steps of synchronising them through
//! git.
//!
//! The library decides and computes; it reads no clock, touches no file and
//! runs no command. Its callers do that and hand it plain values.

pub mod app;
pub mod cache;
pub mod calendar;
pub mod daemon;
pub mod date_utils;
pub mod event_handling;
pub mod listing;
pub mod persistence;
pub mod sync;
pub mod text;
pub mod ui;
