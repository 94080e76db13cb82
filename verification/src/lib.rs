//! The state machine behind a hotkey-activated quick-launch overlay.
//!
//! The user types a trigger character and a path, part by part. The first
//! part picks a bookmark, each further part a directory below it. On every
//! change of the command line the overlay works out how deep the user has
//! gone, which candidates hold the part being typed, and which path they
//! stand for. On commit it says which program is to be started on that path.
//!
//! The overlay does no input or output. Its host shows it, lists directories
//! for it and starts programs.

pub mod chars;
pub mod dispatch;
pub mod laws;
pub mod listing;
pub mod matching;
pub mod model;
pub mod overlay;
pub mod pattern;
pub mod replace;
pub mod resolve;
pub mod split;
pub mod squeeze;
pub mod tables;

pub use dispatch::Action;
pub use listing::ListingEntry;
pub use matching::MatchSource;
pub use overlay::Overlay;
pub use tables::{Bookmark, CommandSpec, Flaw, LoadError};
