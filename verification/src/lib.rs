//! Labels candlestick series with trend episodes.
//!
//! A table of bars goes through five stages: trailing window statistics,
//! band detection, episode segmentation, per-episode aggregation and trend
//! classification. All quantities are integers (prices and volumes in
//! ticks, thresholds as ratios), so every comparison is exact.

pub mod band;
pub mod candle;
pub mod config;
pub mod episode;
pub mod pipeline;
pub mod rolling;
pub mod segment;
pub mod trend;
pub mod wide;
