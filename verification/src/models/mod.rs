//! The records that flow through the pipeline and out of the reports.

pub mod event;
pub mod report;
pub mod user;
