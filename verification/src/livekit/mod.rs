//! What comes from LiveKit and what goes to it: its webhook, the lists of its
//! rooms, and the tokens that admit to them.

pub mod snapshot;
pub mod token;
pub mod webhook;
