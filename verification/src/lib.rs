//! Speakyfi core: the decisions and encodings behind the push-to-talk
//! dictation app, with their contracts.

pub mod text;
pub mod base64;
pub mod crypto;
pub mod config;
pub mod correction;
pub mod cloud;
pub mod transcriber;
pub mod diagnostics;
pub mod audio;
pub mod hotkeys;
pub mod output;
pub mod tray;
