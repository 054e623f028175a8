//! unsound: dictation, cleanup and meeting-notes logic, verified with Verus.
pub mod text;
pub mod hotkeys;
pub mod hotkey_laws;
pub mod settings;
pub mod remote;
pub mod models;
pub mod llm;
pub mod store;
pub mod meeting;
pub mod audiofile;
pub mod stt;
pub mod shortcuts;
pub mod deliver;
pub mod frontapp;
pub mod permissions;
pub mod asr;
pub mod tray;
