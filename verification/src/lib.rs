//! Random MIDI control-change, note and system-exclusive messages, built
//! from a patch description and sent in rounds.
//!
//! - `config`: the patch (control changes, notes, system-exclusive
//!   templates) and its settings with their defaults.
//! - `messages`: what one entry of a patch gives for given random draws, and
//!   the functions that make the draws.
//! - `round`: a whole round drawn from a patch, and the send and wait steps
//!   that play it.
//! - `session`: how many rounds are played, and the choice of output port.
//! - `text`: the parsers for the textual fields (hexadecimal bytes of a
//!   template, port numbers).
pub mod config;
pub mod messages;
mod random;
pub mod round;
pub mod session;
pub mod text;
