//! Verified core of a read-only holdings-data service: a closed ticker
//! enumeration, calendar-date parsing and comparison, inclusive date-range
//! filtering over in-memory datasets, projection into a transport
//! representation, and token-bucket admission control.

pub mod dataset;
pub mod date;
pub mod handler;
pub mod limiter;
pub mod project;
pub mod ticker;
