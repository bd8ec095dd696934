//! A resumable sink connector core: it turns an ordered, per-source event
//! stream into bounded batches, transforms each batch into a columnar row
//! bundle, and writes it through an idempotent, offset-keyed sink so that a
//! restart can resume exactly where the destination left off.

pub mod event;
pub mod offsets;
pub mod rows;
pub mod table;
pub mod batcher;
pub mod db;
pub mod pipeline;
pub mod postgres;
