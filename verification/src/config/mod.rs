pub mod config;
pub mod defaults;
