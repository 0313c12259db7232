//! Verified core of a desktop stem-separation library manager.
pub mod commands;
pub mod db;
pub mod download;
pub mod dsp;
pub mod error;
pub mod infer;
pub mod json;
pub mod models;
pub mod playback;
pub mod queue;
pub mod text;
pub mod tools;
