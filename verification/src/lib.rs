//! Verified core of a vehicle data logger: signal formulas, PID scanning,
//! connection handling, session inference and storage bookkeeping.

pub mod ai_condition;
pub mod application;
pub mod builtin_signals;
pub mod calendar;
pub mod connection;
pub mod diagnostics;
pub mod domain;
pub mod feature_windows;
pub mod health;
pub mod labels;
pub mod localization;
pub mod log_store;
pub mod logging_buffer;
pub mod pid_formula;
pub mod pid_scan;
pub mod realtime;
pub mod release;
pub mod retention;
pub mod score_periods;
pub mod text;
pub mod time;
pub mod training;
pub mod updater;
pub mod vehicle_data;
pub mod vehicle_lifecycle;
pub mod worker_protocol;
