//! Checking GitHub for launcher updates.

pub mod github;
pub mod json;
pub mod pattern;
