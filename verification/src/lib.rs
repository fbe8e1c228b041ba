//! Debounced auto-snapshot core: change-event coalescing with a
//! one-timer-per-burst guarantee, snapshot commit outcome classification,
//! history parsing, and friendly diff rendering.

pub mod commit;
pub mod diff;
pub mod history;
pub mod repo;
pub mod text;
pub mod watch;
