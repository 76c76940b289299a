//! Verified core of a voice-driven desktop assistant.
//!
//! The crate holds the decision logic of the speech pipeline: voice-activity
//! hysteresis, utterance buffering, sentence segmentation for streamed
//! synthesis and playback bookkeeping. Alongside it stand the rules that the
//! surrounding program relies on: profiles, configuration defaults, hotkey
//! parsing, prompt interpretation and chat bookkeeping. Devices, network and
//! windows are left to the program that links this library.

pub mod audio;
pub mod config;
pub mod first_run;
pub mod hotkeys;
pub mod ollama;
pub mod profiles;
pub mod state;
pub mod table;
pub mod text;
