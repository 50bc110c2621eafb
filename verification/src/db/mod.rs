//! What the periodic writer stores, and when.

pub mod writer;
