//! The logic of a small deployment daemon: configuration merging, pod manifest
//! rendering, deploy and preview orchestration, health polling, registry
//! credentials, apply diffs and host diagnostics.

pub mod config;
pub mod deploy;
pub mod diff;
pub mod diff_laws;
pub mod docker;
pub mod doctor;
pub mod error;
pub mod extract;
pub mod health;
pub mod ip;
pub mod json;
pub mod manifest;
pub mod manifest_laws;
pub mod merge;
pub mod patch;
pub mod podman;
pub mod preview;
pub mod preview_rollout;
pub mod preview_laws;
pub mod preview_runs;
pub mod previews;
pub mod reconcile;
pub mod registry;
pub mod rollout;
pub mod rollout_laws;
pub mod rollout_runs;
pub mod text;
pub mod time;
pub mod yaml;
