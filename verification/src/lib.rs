//! Row-batching encoder for a binary database wire protocol.
//!
//! A [`batch::DataRowBatch`] accumulates result rows into one outbound byte
//! buffer. Each row is staged by a [`batch::DataRowWriter`], which serializes
//! scalar values according to the batch's format mode (human-readable text or
//! fixed-width binary) and, at finalization, appends the row to the batch as a
//! tagged, length-prefixed message.

pub mod batch;
pub mod buffer;
pub mod calendar;
pub mod encoding;
