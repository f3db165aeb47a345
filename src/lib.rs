//! A small time-tracking store: work intervals, the timer's state, and the
//! daily and weekly totals computed from them.

pub mod panel;
pub mod stamp;
pub mod store;

pub use panel::Visible;
pub use stamp::Stamp;
pub use store::{Record, Store, TimerState};
