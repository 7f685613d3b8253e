pub mod text;
pub mod scraper;
pub mod cli;
pub mod deployer;
pub mod engine;
pub mod laws;
pub mod display_snapshot;
pub mod ddc_control;
pub mod display_apply;
pub mod display_controller;
pub mod config;
pub mod daemon;
pub mod bridge;
pub mod telemetry;
pub mod hw_init;
