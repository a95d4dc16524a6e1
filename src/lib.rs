//! Capture, resampling, mixing and transcript-merging logic of a two-channel
//! meeting recorder.
//!
//! Audio samples are carried as signed fixed-point integers: `pcm::FULL_SCALE`
//! stands for the amplitude 1.0 of a 32-bit float sample.
pub mod pcm;
pub mod resample;
pub mod mixer;
pub mod text;
pub mod transcript;
pub mod session;
pub mod capture;
pub mod summarize;
pub mod config;
pub mod recognize;
