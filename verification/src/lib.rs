//! A school bell schedule: named day patterns made of periods, a calendar of
//! per-day annotations built from calendar events, and the resolution of a
//! date and a time of day to the pattern and the periods in force.

pub mod calendar;
pub mod laws;
pub mod outside;
pub mod pattern;
pub mod period;
pub mod schedule;
