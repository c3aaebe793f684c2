//! Verified import pipeline for wide-format bicycle/pedestrian counter exports.
//!
//! A periodic export file holds one row per 15-minute timestamp, with a fixed
//! block of columns per counting station. The library decodes each row into
//! per-station individual counts, rolls them up into per-(station, date)
//! aggregates, and produces a load plan that deletes existing rows for the
//! affected dates before inserting fresh ones, so that reimporting the same
//! file is idempotent.

pub mod aggregate;
pub mod counts;
pub mod decode;
pub mod layout;
pub mod pipeline;
pub mod plan;
