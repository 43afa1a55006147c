//! Core of a desktop dictation assistant: capture buffering, resampling,
//! voice-activity segmentation, transcript assembly and the recording
//! session state machine, each with a machine-checked contract.

pub mod capture;
pub mod history;
pub mod models;
pub mod pipeline;
pub mod polish;
pub mod remote;
pub mod resample;
pub mod session;
pub mod transcript;
pub mod ui;
pub mod vad;
