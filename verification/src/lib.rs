//! Keeps a channel's video roster current and queues the comments that are new
//! since the last look at each video.

pub mod failure;
pub mod ident;
pub mod json;
pub mod model;
pub mod queue;
pub mod request;
pub mod roster;
pub mod text;
pub mod wire;
