//! Core logic of a small arcade game: a player-controlled circle dodges and
//! shoots falling squares, with score and high-score tracking and a four-state
//! menu flow.
//!
//! All geometry is carried in fixed-point integer coordinates: `SCALE`
//! subpixel units per pixel, speeds in subpixels per millisecond (numerically
//! equal to pixels per second), and frame times in milliseconds. The host
//! program owns the window, input, clock, random draws and high-score file;
//! it hands plain values in and performs the effects handed back.

pub mod frame;
pub mod laws;
pub mod machine;
pub mod session;
pub mod shape;

pub use machine::Game;
pub use session::GameMode;
pub use session::Session;
pub use shape::Rect;
pub use shape::Shape;
