//! BenchHub: benchmark configuration, settings, localisation and safety rules,
//! with their contracts proved by Verus.

pub mod text;
pub mod bench_config;
pub mod models;
pub mod config;
pub mod utils;
pub mod engine;
pub mod logging;
pub mod i18n;
pub mod eula;
pub mod export;
pub mod telemetry;
pub mod commands;
pub mod state;
pub mod discovery;
pub mod runs;
pub mod history;
pub mod catalog;
pub mod methodology;
pub mod settings_dialog;
pub mod history_filter;
pub mod run_display;
pub mod settings_choices;
pub mod schema;
pub mod dates;
pub mod comparison;
