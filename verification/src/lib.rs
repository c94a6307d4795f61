//! Lockstep playback for groups of viewers: a registry of watch sessions, the
//! wire protocol spoken by each viewer's socket, and the rules that keep late
//! joiners aligned with the longest-connected viewer.

pub mod content;
pub mod decimal;
pub mod handler;
pub mod laws;
pub mod pages;
pub mod player;
pub mod playlist;
pub mod seconds;
pub mod session;
pub mod state;
pub mod text;
pub mod wire;

pub use content::Shitpost;
