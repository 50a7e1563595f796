//! A keyboard-driven terminal music player's core: the library and
//! playlists, the playback queue, the dialogs and text editors, lyrics
//! parsing and the layout arithmetic behind every panel.
pub mod app;
pub mod cli;
pub mod confirm;
pub mod filepicker;
pub mod keys;
pub mod layout;
pub mod library;
pub mod lyrics;
pub mod modal;
pub mod nav;
pub mod player;
pub mod numeric;
pub mod settings;
pub mod state;
pub mod text;
