//! A connection: its handshake, what its client asks for, and its end.
//!
//! Nothing here waits or sends. Each function takes what was looked up or
//! received and says what is to be done.

pub mod activity;
pub mod chat;
pub mod dispatch;
pub mod handshake;
pub mod moderation;
pub mod music;
pub mod presence;
