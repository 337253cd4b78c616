//! The editor's panel logic: the state each panel keeps, the rules that turn
//! a gesture into an edit, and the text the panels show.

pub mod app;
pub mod audio_settings;
pub mod bin_tree;
pub mod chords;
pub mod command_api;
pub mod diagnostics;
pub mod dock;
pub mod effects;
pub mod export_panel;
pub mod export_runner;
pub mod fade;
pub mod fullscreen;
pub mod history_panel;
pub mod host_services;
pub mod inspector;
pub mod keymap;
pub mod media_bin;
pub mod media_import;
pub mod playback_audio;
pub mod plugins;
pub mod plugins_panel;
pub mod markers;
pub mod problem;
pub mod text;
