//! Dates for a download window: text in `YYYY-MM-DD` form is validated,
//! placed at local midnight in New South Wales and clamped into the
//! window that the current instant allows.

pub mod date;
pub mod error;
pub mod number;
pub mod pattern;
pub mod zone;
