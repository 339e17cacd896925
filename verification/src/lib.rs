//! Verified core of a lab dashboard: normalising CI runners, jobs and
//! Tailscale devices, planning device actions and locating configuration.

pub mod text;
pub mod json;
pub mod model;
pub mod tailscale;
pub mod jobs;
pub mod forges;
pub mod actions;
pub mod terminal;
pub mod config;
pub mod dashboard;
