//! What the player's widgets have in common.
pub mod style;
