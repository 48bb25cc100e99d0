//! Tariff analysis of electricity meter readings: a regular 15-minute power
//! curve with its time-of-use periods, and the slot ranges over which each
//! day's peak energy is integrated.
//!
//! The library never computes with a power value. It reads the readings,
//! places them on the time axis, sorts the slots by tariff period and cuts
//! the peak windows; the values pass through as they are, whatever their
//! type.

pub mod error;
pub mod model;
pub mod number;
pub mod pipeline;
pub mod power;
pub mod records;
pub mod regularize;
pub mod scaling;
pub mod tariff;
pub mod timestamp;
pub mod work;

pub use crate::error::PipelineError;
pub use crate::model::{PowerRecords, Response, Series, WorkRecords};
pub use crate::pipeline::{aggregate, read_input, Input};
pub use crate::power::{build_power_records, power_curve, PowerCurvePoint};
pub use crate::records::{extract_records, map_records, read_records, Record};
pub use crate::regularize::{regularize, DenseSeries, Reading};
pub use crate::scaling::effective_factor;
pub use crate::tariff::{categorize_by_datetime, PeriodCategory};
pub use crate::timestamp::Timestamp;
pub use crate::work::{build_work_records, Window};
