//! What the registry holds and what it reports.

use vstd::prelude::*;

use crate::clock::UtcTime;
use crate::ident::Uuid;
use crate::text::{ascii_lower, copy_optional, optional_text, same_ignoring_case, texts};
use crate::voice::model::{ChangeModel, ParticipantModel, TrackModel};

verus! {

pub type ChannelId = Uuid;

pub type UserId = Uuid;

/// The SID of a LiveKit participant session (`"PA_xxxxx"`).
pub type ParticipantSid = String;

/// The SID of a LiveKit track publication (`"TR_xxxxx"`).
pub type TrackSid = String;

/// How long a participant that only a client announced survives without
/// confirmation by LiveKit, in nanoseconds.
pub const PROVISIONAL_TTL: i128 = 10_000_000_000;

/// How many people a channel admits.
pub const MAX_HUMAN_PARTICIPANTS: usize = 10;

/// How many webhook events the duplicate check remembers.
pub const SEEN_EVENTS_CAP: usize = 512;

#[derive(Debug, Clone, Copy, PartialEq, Eq, Hash, Structural)]
pub enum TrackSource {
    Microphone,
    Camera,
    ScreenShare,
    ScreenShareAudio,
    /// The synthetic row of the music bot: no LiveKit track matches it.
    Music,
}

impl TrackSource {
    /// The name of a source in messages.
    pub open spec fn wire(self) -> Seq<char> {
        match self {
            TrackSource::Microphone => "microphone"@,
            TrackSource::Camera => "camera"@,
            TrackSource::ScreenShare => "screen_share"@,
            TrackSource::ScreenShareAudio => "screen_share_audio"@,
            TrackSource::Music => "music"@,
        }
    }

    /// The source that LiveKit names by `value`, up to the case of ASCII
    /// letters. `None` for a source that is not projected. LiveKit never
    /// names the music source.
    pub open spec fn named(value: Seq<char>) -> Option<TrackSource> {
        if ascii_lower(value) == TrackSource::Microphone.wire() {
            Some(TrackSource::Microphone)
        } else if ascii_lower(value) == TrackSource::Camera.wire() {
            Some(TrackSource::Camera)
        } else if ascii_lower(value) == TrackSource::ScreenShare.wire() {
            Some(TrackSource::ScreenShare)
        } else if ascii_lower(value) == TrackSource::ScreenShareAudio.wire() {
            Some(TrackSource::ScreenShareAudio)
        } else {
            None
        }
    }

    /// Reads the `source` of a LiveKit webhook or participant list. `None`
    /// for a source that is not projected (`"unknown"`).
    pub fn parse(value: &str) -> (r: Option<TrackSource>)
        ensures
            r == TrackSource::named(value@),
    {
        if same_ignoring_case(value, "microphone") {
            Some(TrackSource::Microphone)
        } else if same_ignoring_case(value, "camera") {
            Some(TrackSource::Camera)
        } else if same_ignoring_case(value, "screen_share") {
            Some(TrackSource::ScreenShare)
        } else if same_ignoring_case(value, "screen_share_audio") {
            Some(TrackSource::ScreenShareAudio)
        } else {
            None
        }
    }

    /// The name of this source in messages.
    pub fn as_wire(&self) -> (r: &'static str)
        ensures
            r@ == self.wire(),
    {
        match self {
            TrackSource::Microphone => "microphone",
            TrackSource::Camera => "camera",
            TrackSource::ScreenShare => "screen_share",
            TrackSource::ScreenShareAudio => "screen_share_audio",
            TrackSource::Music => "music",
        }
    }
}

/// A source is read back from its name. The music source is not: no one can
/// claim it.
pub proof fn law_source_read_back(source: TrackSource)
    ensures
        TrackSource::named(source.wire()) == if source == TrackSource::Music {
            None
        } else {
            Some(source)
        },
{
    reveal_strlit("microphone");
    reveal_strlit("camera");
    reveal_strlit("screen_share");
    reveal_strlit("screen_share_audio");
    reveal_strlit("music");
    assert(ascii_lower(source.wire()) =~= source.wire());
    assert("microphone"@.len() == 10);
    assert("camera"@.len() == 6);
    assert("screen_share"@.len() == 12);
    assert("screen_share_audio"@.len() == 18);
    assert("music"@.len() == 5);
}

/// A row of a room: someone who is in the call, or who says so.
#[derive(Debug)]
pub struct VoiceParticipant {
    pub user_id: UserId,
    /// `None` while provisional: announced by the client, not confirmed.
    pub sid: Option<ParticipantSid>,
    pub joined_at: UtcTime,
    /// When the row became provisional, by the monotonic clock.
    pub provisional_since: Option<i128>,
    pub muted: bool,
    pub deafened: bool,
    pub is_bot: bool,
}

impl View for VoiceParticipant {
    type V = ParticipantModel;

    open spec fn view(&self) -> ParticipantModel {
        ParticipantModel {
            user_id: self.user_id,
            sid: optional_text(self.sid),
            joined_at: self.joined_at,
            provisional_since: self.provisional_since,
            muted: self.muted,
            deafened: self.deafened,
            is_bot: self.is_bot,
        }
    }
}

impl Clone for VoiceParticipant {
    fn clone(&self) -> (r: Self)
        ensures
            r@ == self@,
    {
        VoiceParticipant {
            user_id: self.user_id,
            sid: copy_optional(&self.sid),
            joined_at: self.joined_at,
            provisional_since: self.provisional_since,
            muted: self.muted,
            deafened: self.deafened,
            is_bot: self.is_bot,
        }
    }
}

impl VoiceParticipant {
    /// Has LiveKit not confirmed this row?
    pub fn is_provisional(&self) -> (r: bool)
        ensures
            r == self@.is_provisional(),
    {
        self.sid.is_none()
    }
}

/// A published track.
#[derive(Debug)]
pub struct VoiceTrack {
    pub sid: TrackSid,
    pub owner: UserId,
    pub owner_sid: Option<ParticipantSid>,
    pub source: TrackSource,
    pub muted: bool,
}

impl View for VoiceTrack {
    type V = TrackModel;

    open spec fn view(&self) -> TrackModel {
        TrackModel {
            sid: self.sid@,
            owner: self.owner,
            owner_sid: optional_text(self.owner_sid),
            source: self.source,
            muted: self.muted,
        }
    }
}

impl Clone for VoiceTrack {
    fn clone(&self) -> (r: Self)
        ensures
            r@ == self@,
    {
        VoiceTrack {
            sid: self.sid.clone(),
            owner: self.owner,
            owner_sid: copy_optional(&self.owner_sid),
            source: self.source,
            muted: self.muted,
        }
    }
}

/// Why a room changed. A client sees it for diagnosis and decides nothing
/// with it.
#[derive(Debug, Clone, Copy, PartialEq, Eq, Structural)]
pub enum ChangeReason {
    WebhookParticipantJoined,
    WebhookParticipantLeft,
    WebhookTrackPublished,
    WebhookTrackUnpublished,
    WebhookTrackMuted,
    ReconcileAdded,
    ReconcileRemoved,
    ReconcileTrackSync,
    WsPresenceHint,
    WsStateUpdate,
    WsTrackHint,
    AdminDisconnectMember,
    ChannelDeleted,
    ProvisionalExpired,
}

impl Default for ChangeReason {
    /// The reason of an empty change, which is never sent.
    fn default() -> (r: ChangeReason)
        ensures
            r == ChangeReason::WsStateUpdate,
    {
        ChangeReason::WsStateUpdate
    }
}

impl ChangeReason {
    /// The name of a reason in messages.
    pub open spec fn wire(self) -> Seq<char> {
        match self {
            ChangeReason::WebhookParticipantJoined => "webhook.participant_joined"@,
            ChangeReason::WebhookParticipantLeft => "webhook.participant_left"@,
            ChangeReason::WebhookTrackPublished => "webhook.track_published"@,
            ChangeReason::WebhookTrackUnpublished => "webhook.track_unpublished"@,
            ChangeReason::WebhookTrackMuted => "webhook.track_muted"@,
            ChangeReason::ReconcileAdded => "reconcile.added"@,
            ChangeReason::ReconcileRemoved => "reconcile.removed"@,
            ChangeReason::ReconcileTrackSync => "reconcile.track_sync"@,
            ChangeReason::WsPresenceHint => "ws.presence_hint"@,
            ChangeReason::WsStateUpdate => "ws.state_update"@,
            ChangeReason::WsTrackHint => "ws.track_hint"@,
            ChangeReason::AdminDisconnectMember => "admin.disconnect_member"@,
            ChangeReason::ChannelDeleted => "channel.deleted"@,
            ChangeReason::ProvisionalExpired => "provisional.expired"@,
        }
    }

    /// The name of this reason in messages.
    pub fn as_wire(&self) -> (r: &'static str)
        ensures
            r@ == self.wire(),
    {
        match self {
            ChangeReason::WebhookParticipantJoined => "webhook.participant_joined",
            ChangeReason::WebhookParticipantLeft => "webhook.participant_left",
            ChangeReason::WebhookTrackPublished => "webhook.track_published",
            ChangeReason::WebhookTrackUnpublished => "webhook.track_unpublished",
            ChangeReason::WebhookTrackMuted => "webhook.track_muted",
            ChangeReason::ReconcileAdded => "reconcile.added",
            ChangeReason::ReconcileRemoved => "reconcile.removed",
            ChangeReason::ReconcileTrackSync => "reconcile.track_sync",
            ChangeReason::WsPresenceHint => "ws.presence_hint",
            ChangeReason::WsStateUpdate => "ws.state_update",
            ChangeReason::WsTrackHint => "ws.track_hint",
            ChangeReason::AdminDisconnectMember => "admin.disconnect_member",
            ChangeReason::ChannelDeleted => "channel.deleted",
            ChangeReason::ProvisionalExpired => "provisional.expired",
        }
    }
}

/// What an operation changed, so that the caller can send the right delta
/// without computing anything again. Where `version_after` is
/// `version_before` nothing changed and nothing is sent.
#[derive(Debug)]
pub struct RoomChange {
    pub channel_id: ChannelId,
    pub version_before: u64,
    pub version_after: u64,
    pub participants_added: Vec<VoiceParticipant>,
    pub participants_updated: Vec<VoiceParticipant>,
    pub participants_removed: Vec<UserId>,
    pub tracks_added: Vec<VoiceTrack>,
    pub tracks_removed: Vec<TrackSid>,
    pub reason: ChangeReason,
    /// Did the room stop existing, because its last participant left it?
    pub room_closed: bool,
}

/// The rows of a list of participants.
pub open spec fn participant_rows(s: Seq<VoiceParticipant>) -> Seq<ParticipantModel> {
    Seq::new(s.len(), |i: int| s[i]@)
}

/// The rows of a list of tracks.
pub open spec fn track_rows(s: Seq<VoiceTrack>) -> Seq<TrackModel> {
    Seq::new(s.len(), |i: int| s[i]@)
}

impl View for RoomChange {
    type V = ChangeModel;

    open spec fn view(&self) -> ChangeModel {
        ChangeModel {
            channel_id: self.channel_id,
            version_before: self.version_before as nat,
            version_after: self.version_after as nat,
            participants_added: participant_rows(self.participants_added@),
            participants_updated: participant_rows(self.participants_updated@),
            participants_removed: self.participants_removed@,
            tracks_added: track_rows(self.tracks_added@),
            tracks_removed: texts(self.tracks_removed@),
            reason: self.reason,
            room_closed: self.room_closed,
        }
    }
}

impl RoomChange {
    /// A change of nothing, for `reason`.
    pub fn quiet(channel_id: ChannelId, version: u64, reason: ChangeReason) -> (r: RoomChange)
        ensures
            r@ == ChangeModel::quiet(channel_id, version as nat, reason),
    {
        let r = RoomChange {
            channel_id,
            version_before: version,
            version_after: version,
            participants_added: Vec::new(),
            participants_updated: Vec::new(),
            participants_removed: Vec::new(),
            tracks_added: Vec::new(),
            tracks_removed: Vec::new(),
            reason,
            room_closed: false,
        };
        assert(r@ =~= ChangeModel::quiet(channel_id, version as nat, reason));
        r
    }

    /// A change of nothing.
    pub fn empty(channel_id: ChannelId, version: u64) -> (r: RoomChange)
        ensures
            r@ == ChangeModel::quiet(channel_id, version as nat, ChangeReason::WsStateUpdate),
    {
        RoomChange::quiet(channel_id, version, ChangeReason::WsStateUpdate)
    }

    /// Did nothing change?
    pub fn is_empty(&self) -> (r: bool)
        ensures
            r == self@.is_empty(),
    {
        self.version_after == self.version_before
    }
}

/// Why a hint is refused.
#[derive(Debug, Clone, Copy, PartialEq, Eq, Structural)]
pub enum HintError {
    NotInCall,
    NotTrackOwner,
    TrackNotFound,
}

/// A participant as LiveKit lists it, with its tracks: SID, source, and
/// whether the publication is muted.
#[derive(Debug)]
pub struct ReconciledParticipant {
    pub user_id: UserId,
    pub sid: ParticipantSid,
    pub tracks: Vec<(TrackSid, TrackSource, bool)>,
}

} // verus!
