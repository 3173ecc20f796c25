//! Day counts, business-day calendars and the integer logic of interest rate curves,
//! with their contracts proved by Verus.
pub mod calendar;
pub mod curve;
pub mod date;
pub mod daycount;
pub mod rate;
