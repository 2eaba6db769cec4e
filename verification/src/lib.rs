//! An OpenAI-compatible text-to-speech service over the Kokoro model: who may call it,
//! which speech requests it accepts, how audio is encoded, and how it is configured.
pub mod audio;
pub mod config;
pub mod error;
pub mod service;
pub mod text;
pub mod tts;
pub mod voices;
