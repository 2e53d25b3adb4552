//! A dashboard core: observation time series, trend classification,
//! field formatting and line rendering for colourised terminal reports.
pub mod text;
pub mod style;
pub mod series;
pub mod trend;
pub mod fragment;
pub mod thresholds;
pub mod formatters;
pub mod report;
pub mod config;
pub mod version;
pub mod calendar;
