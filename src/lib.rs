//! A pipe monitor's transfer engine: bytes are copied from an ordered list of
//! sources to a sink unchanged, while progress is counted (in bytes or in
//! lines), the rate is limited and the progress display is fed.

pub mod counting;
pub mod decimal;
pub mod format;
pub mod limiter;
pub mod rate;
pub mod report;
pub mod sources;
pub mod template;
pub mod transfer;
