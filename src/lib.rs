//! Automation and observation of terminal programs: key and mouse encoding,
//! a screen model with queries, emulators that answer a child's terminal
//! queries, wait conditions and the daemon's request protocol.

pub mod csi;
pub mod daemon;
pub mod error;
pub mod keys;
pub mod mouse;
pub mod osc;
pub mod patterns;
pub mod protocol;
pub mod screen;
pub mod terminal;
pub mod text;
pub mod wait;

pub use error::TermwrightError;
pub use keys::Key;
pub use screen::Screen;
