//! Verified core of the Arch Linux post-install assistant.

pub mod text;
pub mod validate;
pub mod model;
pub mod catalog;
pub mod update;
pub mod detect;
pub mod estimate;
pub mod validate_profile;
pub mod preflight;
pub mod hardware;
pub mod order;
pub mod repo_api;
pub mod options;
pub mod tui;
pub mod installer;
pub mod profile;
pub mod cli;
