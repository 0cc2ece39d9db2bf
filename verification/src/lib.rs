//! Lyre: the verified core of a terminal music player.
//!
//! The library holds the player's logic: fuzzy matching, songs and their sort
//! keys, playlists, list navigation, key bindings and text formatting.
//! Everything that touches the terminal, the file system or audio output
//! lives in the application crate around it.
#![allow(unused_imports)]

pub mod text;
pub mod fuzzy;
pub mod song;
pub mod playlist;
pub mod keymap;
pub mod navigation;
pub mod state;
pub mod youtube;
pub mod youtube_modal;
pub mod style;
pub mod sort_key;
pub mod rows;
pub mod app_name;
pub mod config;
pub mod scan_cache;
pub mod library;
pub mod player;
pub mod queue;
pub mod input;
pub mod song_modal;
pub mod song_list;
pub mod selection;
pub mod session;
pub mod screen_text;
pub mod panel_view;
pub mod app_state;
