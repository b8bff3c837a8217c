//! Verified core of a Kindle e-ink dashboard: the text handling, calendar
//! arithmetic, weather labels, alert matching, refresh decisions and the
//! suspend/poll decisions of its display backend.

pub mod text;
pub mod numbers;
pub mod date;
pub mod calendar;
pub mod weather;
pub mod refresh;
pub mod device;
pub mod config;
pub mod backend;
