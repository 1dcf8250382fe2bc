//! Voice presence and signaling rules of the Tupi server.

pub mod clock;
pub mod ident;
pub mod listing;
pub mod livekit;
pub mod protocol;
pub mod text;
pub mod voice;
pub mod ws;
