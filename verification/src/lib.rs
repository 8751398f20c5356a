//! Verified core of a command-line client for PostHog: configuration
//! resolution and merging, output shaping, error envelopes and the decisions
//! of the interactive login.

pub mod text;
pub mod json;
pub mod errors;
pub mod output;
pub mod config;
pub mod commands;
