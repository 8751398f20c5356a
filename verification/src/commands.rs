//! The decisions behind the `posthog` subcommands.

pub mod config;
pub mod login;
