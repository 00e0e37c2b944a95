//! A podcast player's core: the streaming download engine that turns one
//! request into a sequence of progress events, and the rules of the feed,
//! search and page layers around it.
pub mod database;
pub mod download;
pub mod feed;
pub mod page;
pub mod widgets;
