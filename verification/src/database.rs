//! What the player stores about podcasts.
pub mod types;

pub use types::Podcast;
