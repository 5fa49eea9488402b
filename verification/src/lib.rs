//! Host attribute resolution engine.
//!
//! The crate holds the fallback-chain algorithms that resolve a host's
//! window manager, terminal emulator, login shell and primary network
//! address, together with the small text utilities they share. Every
//! external probe (a shell command, a process-table query, a network
//! snapshot) is handed in as plain data, so each decision the engine makes
//! is verified; a thin unverified driver performs the actual probing.

pub mod logo;
pub mod netselect;
pub mod procwalk;
pub mod shell;
pub mod stats;
pub mod text;
pub mod wm;
