//! Per-application loudness boosting with safety limiting.
//!
//! The crate models the gain subsystem of a desktop volume booster:
//! a store of per-process boost settings, a coordinator that applies a
//! boost to the control-surface volume of the matching audio session,
//! a sample-level limiter and soft-clip stage, and the version logic of
//! the application's updater.
//!
//! Volumes, boost factors and samples are fixed-point values counted in
//! thousandths of full scale, so `1000` stands for unity.

pub mod audio_boost;
pub mod audio_manager;
pub mod decimal;
pub mod updater;
