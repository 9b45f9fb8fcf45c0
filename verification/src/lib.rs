//! The logic of a checklist kneeboard that is driven by voice and by buttons.
//!
//! Everything here works on plain values: text, numbers, and the types that the
//! modules define. Reading files, talking to devices and drawing stay with the
//! application that uses this library.

pub mod actions;
pub mod asking;
pub mod audio;
pub mod commands;
pub mod config;
pub mod controller;
pub mod examples;
pub mod firsts;
pub mod gamepad;
pub mod help;
pub mod input;
pub mod moving;
pub mod navigation;
pub mod numbers;
pub mod pages;
pub mod phrase_order;
pub mod phrases;
pub mod pills;
pub mod player;
pub mod pronunciation;
pub mod query_aliases;
pub mod rank;
pub mod readings;
pub mod saying;
pub mod section_search;
pub mod session;
pub mod settings;
pub mod similarity;
pub mod sources;
pub mod speech;
pub mod stt;
pub mod tabs;
pub mod text;
pub mod understanding;
pub mod voice_router;
pub mod vr;
pub mod word_map;
