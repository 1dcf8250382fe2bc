//! The projection of the LiveKit room state.
//!
//! LiveKit is the authority; the registry is a cache that converges toward
//! it. Confirmed presence enters through `webhook_*` and `reconcile_*`. A
//! client hint (`hint_*`) may add a row and may remove only a provisional
//! one, never a confirmed participant.

pub mod delta;
pub mod doing;
pub mod events;
pub mod hints;
pub mod history;
pub mod laws;
pub mod mirror;
pub mod model;
pub mod projection;
pub mod reconcile;
pub mod registry;
pub mod room;
pub mod rows;
pub mod shown;
pub mod steps;
pub mod tracks;
pub mod types;
pub mod upkeep;
pub mod validity;

pub use registry::VoiceRegistry;
pub use room::VoiceRoom;
pub use tracks::TrackTable;
pub use types::{
    ChangeReason, ChannelId, HintError, ParticipantSid, ReconciledParticipant, RoomChange, TrackSid,
    TrackSource, UserId, VoiceParticipant, VoiceTrack, MAX_HUMAN_PARTICIPANTS, PROVISIONAL_TTL,
    SEEN_EVENTS_CAP,
};
