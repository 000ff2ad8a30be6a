//! Rolling summary statistics over fixed-point price series.
//!
//! Prices are whole numbers of ticks, [`fixed::PRICE_SCALE`] ticks to one
//! currency unit, so every statistic is exact: quotients are kept as
//! [`fixed::Ratio`] values and rounded only when text is produced.
pub mod binary64;
pub mod config;
pub mod decimal;
pub mod dispatch;
pub mod fields;
pub mod fixed;
pub mod instant;
pub mod quotes;
pub mod report;
pub mod stats;
