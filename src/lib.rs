//! UTC date/times at or after 1970-01-01T00:00:00, converted to and from
//! whole seconds plus nanoseconds since the Unix epoch.

pub mod calendar;
pub mod format;
pub mod laws;
pub mod utc;

pub use crate::calendar::{Month, Weekday};
pub use crate::utc::{DateError, Utc};
