//! Larrez Player's model: which files play and in what order, where "next"
//! and "previous" go, resume positions, how the command line and the
//! keyboard are read, what goes into the log, how mpv is set up, and the
//! state machine and geometry of the on-screen interface.

pub mod cli;
mod clock;
pub mod glyph;
pub mod layout;
pub mod logging;
pub mod look;
pub mod mpv;
pub mod natural;
pub mod playlist;
pub mod resume;
pub mod session;
pub mod text;
pub mod ui;

pub use natural::{natural_cmp, sort_naturally};
pub use playlist::{is_subtitle, is_video, Entry, Playlist, Repeat, Source};
