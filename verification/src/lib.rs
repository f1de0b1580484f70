//! Deployment control: release artifacts, deployment planning, command execution,
//! log retention, accounts and sessions.

pub mod artifact_storage;
pub mod auth;
pub mod bytes;
pub mod catalog;
pub mod clock;
pub mod decimal;
pub mod deploy;
pub mod deployment_console;
pub mod deployment_orchestrator;
pub mod deployment_retention;
pub mod deployment_runtime;
pub mod digest;
pub mod events;
pub mod health;
pub mod host_metrics;
pub mod json;
pub mod maintenance;
pub mod order;
pub mod pieces;
pub mod query;
pub mod text;
pub mod urls;
