//! Habit tracking: calendar dates, the habit store, what it holds, and the monthly grid.

pub mod commands;
pub mod date;
pub mod error;
pub mod grid;
pub mod storage;
pub mod tables;
pub mod text;
