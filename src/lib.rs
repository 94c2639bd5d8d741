//! A countdown-timer service: a registry of timers keyed by random identifiers, the
//! creation of a timer for a number of minutes, and the time left on a timer.
pub mod time;
pub mod timer;
pub mod service;
