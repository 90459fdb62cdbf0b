//! The translation core of OverLingo: configuration, translator catalogue, session state
//! machines, transcripts and archive rendering, with their contracts.

pub mod state;
pub mod text;
pub mod config;
pub mod translators;
pub mod credentials;
pub mod realtime;
pub mod timestamps;
pub mod transcript;
pub mod clock;
pub mod route;
pub mod session_store;
pub mod journal;
pub mod audio;
pub mod controller;
pub mod session;
pub mod updates;
pub mod json;
pub mod qwen;
pub mod openai;
pub mod soniox;
pub mod shell;
pub mod diagnostics;
pub mod autostart;
pub mod providers;
