//! Verified core of a two-player torpedo duel rendered with WebGL.
//!
//! The library holds the decisions of the game: which key steers which
//! vehicle, when a torpedo is armed, which grid cells each vehicle and
//! torpedo occupies and who is hit, how the explosion particle buffers
//! alternate, and how the per-draw uniform data is laid out.

pub mod controls;
pub mod torpedo;
pub mod collision;
pub mod explosion;
pub mod frame;
pub mod layout;
pub mod varyings;
