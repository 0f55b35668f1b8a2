//! Verified core of the VietIME tools: the input-method diagnostics and
//! the installer's planning, env-file editing and parsing logic.
pub mod text;
pub mod managed;
pub mod envfile;
pub mod envfile_laws;
pub mod resolve;
pub mod electron;
pub mod fcitx5_config;
pub mod model;
pub mod planner;
pub mod packageops;
pub mod sudo;
pub mod snapshot;
pub mod executor;
pub mod recommendations;
pub mod ibus_engines;
pub mod render;
pub mod detectors;
pub mod checkers;
pub mod runtime;
pub mod cli;
pub mod host;
pub mod daemons;
pub mod engine_packages;
pub mod reconcile;
pub mod apps;
