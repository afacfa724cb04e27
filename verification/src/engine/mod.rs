//! Obfuscation engine: timing manipulation, configuration and event scheduling.
pub mod config;
pub mod obfuscation;
pub mod scheduler;
