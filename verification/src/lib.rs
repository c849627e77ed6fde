//! A music player core: playback queue, command handling, library index,
//! playlist and lyrics parsing, and the terminal front end's state machine.
pub mod text;
pub mod error;
pub mod mixer;
pub mod paths;
pub mod types;
pub mod tracklist;
pub mod sorting;
pub mod library;
pub mod player;
pub mod config;
pub mod theme;
pub mod scrobble;
pub mod playlist;
pub mod scanner;
pub mod metadata;
pub mod lyrics;
pub mod art;
pub mod tui;
pub mod view;
