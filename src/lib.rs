//! A stopwatch engine that splits elapsed time into a cycling schedule of
//! intervals, with pause, resume and reset.
//!
//! Instants are whole nanoseconds since the stopwatch's clock origin. Each
//! operation that reads the clock has a counterpart ending in `_at` that
//! takes the instant as an argument and whose result is stated exactly.
pub mod cli;
pub mod clock;
pub mod intervals;
pub mod stopwatch;
pub mod text;
pub mod tui;
