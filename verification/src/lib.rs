//! Verified core logic of the Stats dashboard: configuration rules,
//! the Amp request limiter, activity-calendar arithmetic and text layout.

pub mod text;
pub mod config;
pub mod limiter;
pub mod dates;
pub mod activity;
pub mod calendar;
pub mod amp;
pub mod model;
pub mod layout;
pub mod cli;
pub mod probe;
pub mod report;
pub mod sync;
pub mod grid;
pub mod tui;
pub mod labels;
pub mod session;
pub mod plan_limits;
