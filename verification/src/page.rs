//! The pages of the player: what they hold and how they answer messages.
pub mod podcasts;
