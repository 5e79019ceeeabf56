//! Statistics of a stream of journal records.
//!
//! Each line of the stream is one JSON object as `journalctl -o json` writes
//! it. [`deserialize_fallback`] classifies a line as a record of one of six
//! shapes, or as an `Invalid` record where it fits none; [`count`] folds a
//! stream into a [`LogReport`]: the lines and message bytes of the whole,
//! the lines by facility, and the lines, bytes and priorities of each
//! service unit.
//!
//! - [`json`] reads a line as a JSON object, through `serde_json`;
//! - [`classify`] turns the members of an object into a record, [`encode`]
//!   turns a record back into members;
//! - [`model`] holds the shapes of records, [`timestamp`] their instants;
//! - [`stats`] says what a stream amounts to and proves the laws of it;
//! - [`report`] holds the counters and counts, [`order`] ranks the units;
//! - [`decimal`], [`text`], [`sums`] and [`namemap`] are what the others
//!   are built on.

pub mod classify;
pub mod decimal;
pub mod encode;
pub mod json;
pub mod model;
pub mod namemap;
pub mod order;
pub mod report;
pub mod stats;
pub mod sums;
pub mod text;
pub mod timestamp;

pub use crate::classify::{deserialize_fallback, ClassifyError};
pub use crate::model::{Audit, Driver, Invalid, Journal, Kernel, Log, Stdout, Syslog};
pub use crate::report::{count, CountError, LogReport, LogTotalCount, ServiceCount};
pub use crate::timestamp::{DateTimeRange, Timestamp};
