//! Calendar dates, times of day and their combination.

pub mod date;
pub mod date_time;
pub mod time;

pub use date::{days_in_month, is_leap_year, Date, ParseDateError};
pub use date_time::{DateTime, ParseDateTimeError};
pub use time::{ParseTimeError, Time};
