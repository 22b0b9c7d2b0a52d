//! Envelopes and the stores that keep them.

pub mod journal;
pub mod payload;
pub mod sync;
