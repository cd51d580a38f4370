//! Activity tracking core: change filtering, debouncing, enrichment and
//! session reconstruction from sparse event streams.

pub mod api;
pub mod clock;
pub mod commands;
pub mod config;
pub mod error;
pub mod json;
pub mod models;
pub mod numbers;
pub mod path;
pub mod report;
pub mod service;
pub mod text;
pub mod text_map;
pub mod util;
pub mod watcher;
