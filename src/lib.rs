//! Client-side core of a browser chat: the wire envelope codec and the
//! synchronizer that turns relay frames into roster and message-log state.

pub mod chat;
pub mod envelope;
pub mod json;
pub mod laws;
pub mod profile;
pub mod text;
