//! The messages of the signaling protocol. Every message is an envelope
//! `{ "v": 1, "op": "<namespace>.<action>", "data": { ... } }`.

use vstd::prelude::*;

use crate::clock::UtcTime;
use crate::ident::Uuid;
use crate::text::optional_text;

verus! {

/// The version of the envelope. It names the form of the envelope, not the
/// dialect, and never changes.
pub const ENVELOPE_VERSION: u8 = 1;

/// The highest dialect that this server speaks.
pub const MAX_SERVER_PROTOCOL: u8 = 2;

/// The first dialect in which a client is told of rooms and their changes.
/// Earlier ones are told of whole rosters.
pub const ROOM_PROTOCOL: u8 = 2;

/// The last dialect in which a client is told of rosters.
pub const ROSTER_PROTOCOL: u8 = 1;

/// The dialect of a client that names none.
pub fn default_protocol_version() -> (r: u8)
    ensures
        r == 1,
{
    1
}

/// `serde_json::Value`, a JSON value that is carried and never looked into.
#[verifier::external_type_specification]
#[verifier::external_body]
pub struct ExValue(serde_json::Value);

/// A message from a client. `data` is read once `op` says what it should be.
#[derive(Debug)]
pub struct InboundEnvelope {
    pub v: u8,
    pub op: String,
    pub data: serde_json::Value,
}

/// A message to a client.
#[derive(Debug)]
pub struct OutboundEnvelope {
    pub v: u8,
    pub op: String,
    pub data: Payload,
}

/// What a message to a client carries.
#[derive(Debug)]
pub enum Payload {
    Error(ErrorData),
    AuthRejected(AuthRejected),
    AuthOk(AuthOk),
    PresenceSnapshot(PresenceSnapshot),
    PresenceUpdate(PresenceUpdate),
    ActivitySnapshot(ActivitySnapshot),
    ActivityUpdate(ActivityUpdate),
    DmOpened(DmOpened),
    ChatTyping(ChatTypingEvent),
    ChatMessageCreated(ChatMessageCreated),
    ChatMessageEdited(ChatMessageEdited),
    ChatMessageDeleted(ChatMessageDeleted),
    MusicCommand(MusicCommandEvent),
    MusicStop(MusicStopEvent),
    CallStateUpdate(CallStateUpdateEvent),
    VoiceMoved(VoiceMoved),
    VoiceDisconnected(VoiceDisconnected),
    VoiceRoster(VoiceRoster),
    VoiceRooms(VoiceRoomsSnapshot),
    VoiceRoomState(VoiceRoomState),
    VoiceRoomDelta(VoiceRoomDelta),
}

impl OutboundEnvelope {
    /// Is this the error `code`, in answer to `in_reply_to`?
    pub open spec fn is_error(
        self,
        code: Seq<char>,
        message: Seq<char>,
        in_reply_to: Option<Seq<char>>,
    ) -> bool {
        &&& self.v == ENVELOPE_VERSION
        &&& self.op@ == "error"@
        &&& self.data matches Payload::Error(e) && {
            &&& e.code@ == code
            &&& e.message@ == message
            &&& optional_text(e.in_reply_to) == in_reply_to
        }
    }

    /// Is this the message `op` with `data`?
    pub open spec fn is_message(self, op: Seq<char>, data: Payload) -> bool {
        &&& self.v == ENVELOPE_VERSION
        &&& self.op@ == op
        &&& self.data == data
    }

    /// A message.
    pub fn new(op: &str, data: Payload) -> (r: OutboundEnvelope)
        ensures
            r.is_message(op@, data),
    {
        OutboundEnvelope { v: ENVELOPE_VERSION, op: op.to_string(), data }
    }

    /// An error message, in answer to the request `in_reply_to` where the
    /// client gave one.
    pub fn error(code: &str, message: &str, in_reply_to: Option<&str>) -> (r: OutboundEnvelope)
        ensures
            r.is_error(
                code@,
                message@,
                match in_reply_to {
                    Some(s) => Some(s@),
                    None => None,
                },
            ),
    {
        let reply: Option<String> = match in_reply_to {
            Some(s) => Some(s.to_string()),
            None => None,
        };
        OutboundEnvelope::new(
            "error",
            Payload::Error(
                ErrorData { code: code.to_string(), message: message.to_string(), in_reply_to: reply },
            ),
        )
    }
}

/// The payload of `auth.rejected`.
#[derive(Debug)]
pub struct AuthRejected {
    pub reason: String,
}

/// A channel of a community. `kind` is `"text"` or `"voice"`.
#[derive(Debug)]
pub struct Channel {
    pub id: Uuid,
    pub community_id: Uuid,
    pub category_id: Option<Uuid>,
    pub name: String,
    pub kind: String,
    pub topic: Option<String>,
    pub position: i32,
}

/// Outbound `dm.opened`.
#[derive(Debug)]
pub struct DmOpened {
    pub channel: Channel,
    pub target_user_id: Uuid,
    pub req_id: Option<String>,
}

/// Inbound `dm.open`.
#[derive(Debug)]
pub struct DmOpen {
    pub target_user_id: Uuid,
    pub req_id: Option<String>,
}

/// Outbound `chat.typing`.
#[derive(Debug)]
pub struct ChatTypingEvent {
    pub channel_id: Uuid,
    pub user_id: Uuid,
}

/// A file that belongs to a message.
#[derive(Debug)]
pub struct MessageAttachment {
    pub id: Uuid,
    pub filename: String,
    pub content_type: String,
    pub size_bytes: i64,
    pub url: String,
}

/// Outbound `music.command`, to the music bot.
#[derive(Debug)]
pub struct MusicCommandEvent {
    pub channel_id: Uuid,
    pub voice_channel_id: Uuid,
    pub command: String,
    pub query: Option<String>,
    pub requested_by: Uuid,
}

/// Outbound `music.command` that resets the music bot.
#[derive(Debug)]
pub struct MusicStopEvent {
    pub command: String,
    pub voice_channel_id: Uuid,
    pub reason: String,
}

/// The payload of `error`.
#[derive(Debug)]
pub struct ErrorData {
    pub code: String,
    pub message: String,
    pub in_reply_to: Option<String>,
}

/// Inbound `auth.hello`, the first message of a connection.
#[derive(Debug)]
pub struct AuthHello {
    pub token: String,
    pub protocol_version: u8,
    pub client_version: Option<String>,
    pub client_platform: Option<String>,
}

/// Outbound `auth.ok`. `protocol_version` is the one that was negotiated;
/// a client ignores the `features` that it does not know.
#[derive(Debug)]
pub struct AuthOk {
    pub user_id: Uuid,
    pub username: String,
    pub display_name: String,
    pub livekit_url: Option<String>,
    pub protocol_version: u8,
    pub server_version: String,
    pub features: Vec<String>,
}

/// Whether a member is `"online"`, `"busy"` or `"offline"`.
#[derive(Debug)]
pub struct PresenceEntry {
    pub user_id: Uuid,
    pub status: String,
}

/// Outbound `presence.snapshot`.
#[derive(Debug)]
pub struct PresenceSnapshot {
    pub users: Vec<PresenceEntry>,
}

/// Outbound `presence.update`.
#[derive(Debug)]
pub struct PresenceUpdate {
    pub user_id: Uuid,
    pub status: String,
}

/// Inbound `presence.set`: a member sets their own status, `"online"` or
/// `"busy"`.
#[derive(Debug)]
pub struct PresenceSet {
    pub status: String,
}

/// What a member is doing outside Tupi: `"playing"`, `"listening"`,
/// `"watching"` or `"browsing"`. The last three fields are derived by the
/// server for games and never set by a client.
#[derive(Debug)]
pub struct Activity {
    pub kind: String,
    pub name: String,
    pub details: Option<String>,
    pub state: Option<String>,
    pub started_at: Option<String>,
    pub asset_image: Option<String>,
    pub asset_text: Option<String>,
    pub total_seconds: Option<i64>,
    pub last_played_at: Option<String>,
    pub is_new: Option<bool>,
}

/// Inbound `activity.report`.
#[derive(Debug)]
pub struct ActivityReport {
    pub activities: Vec<Activity>,
    pub req_id: Option<String>,
}

/// The activities of one member.
#[derive(Debug)]
pub struct ActivityEntry {
    pub user_id: Uuid,
    pub activities: Vec<Activity>,
}

/// Outbound `activity.snapshot`.
#[derive(Debug)]
pub struct ActivitySnapshot {
    pub users: Vec<ActivityEntry>,
}

/// Outbound `activity.update`.
#[derive(Debug)]
pub struct ActivityUpdate {
    pub user_id: Uuid,
    pub activities: Vec<Activity>,
}

/// Outbound `member.updated`.
#[derive(Debug)]
pub struct MemberUpdated {
    pub user_id: Uuid,
    pub username: String,
    pub display_name: String,
    pub avatar_url: Option<String>,
    pub avatar_color: Option<String>,
    pub profile_tag: Option<String>,
    pub name_color: Option<String>,
    pub bio: Option<String>,
    pub banner_preset: Option<String>,
    pub pronouns: Option<String>,
    pub created_at: Option<UtcTime>,
    pub role: String,
}

/// Outbound `channel.updated`.
#[derive(Debug)]
pub struct ChannelUpdated {
    pub id: Uuid,
    pub name: String,
    pub kind: String,
    pub category_id: Option<Uuid>,
}

/// Inbound `chat.message.create`. A repeated `req_id` names a retry.
#[derive(Debug)]
pub struct ChatMessageCreate {
    pub channel_id: Uuid,
    pub content: String,
    pub attachment_ids: Vec<Uuid>,
    pub req_id: Option<String>,
}

/// Inbound `chat.message.edit`.
#[derive(Debug)]
pub struct ChatMessageEdit {
    pub message_id: Uuid,
    pub content: String,
    pub req_id: Option<String>,
}

/// Inbound `chat.message.delete`.
#[derive(Debug)]
pub struct ChatMessageDelete {
    pub message_id: Uuid,
    pub req_id: Option<String>,
}

/// A chat message. `music_status` is there only on a status card of the
/// music bot, which a client shows in place of the text.
#[derive(Debug)]
pub struct MessageDto {
    pub id: Uuid,
    pub channel_id: Uuid,
    pub author_id: Uuid,
    pub content: String,
    pub created_at: UtcTime,
    pub edited_at: Option<UtcTime>,
    pub attachment_ids: Vec<Uuid>,
    pub attachments: Vec<MessageAttachment>,
    pub music_status: Option<MusicStatus>,
}

/// Outbound `chat.message.created`.
#[derive(Debug)]
pub struct ChatMessageCreated {
    pub message: MessageDto,
    pub in_reply_to: Option<String>,
}

/// Outbound `chat.message.edited`.
#[derive(Debug)]
pub struct ChatMessageEdited {
    pub message_id: Uuid,
    pub content: String,
    pub edited_at: Option<UtcTime>,
    pub in_reply_to: Option<String>,
}

/// Outbound `chat.message.deleted`.
#[derive(Debug)]
pub struct ChatMessageDeleted {
    pub message_id: Uuid,
    pub channel_id: Uuid,
    pub in_reply_to: Option<String>,
}

/// What a link in a message points to.
#[derive(Debug)]
pub struct LinkPreviewDto {
    pub url: String,
    pub title: Option<String>,
    pub description: Option<String>,
    pub site_name: Option<String>,
    pub image_url: Option<String>,
}

/// Outbound `chat.message.preview_updated`.
#[derive(Debug)]
pub struct ChatMessagePreviewUpdated {
    pub channel_id: Uuid,
    pub message_id: Uuid,
    pub link_preview: Option<LinkPreviewDto>,
}

/// Inbound `chat.typing`.
#[derive(Debug)]
pub struct ChatTyping {
    pub channel_id: Uuid,
}

/// Inbound `call.state.update`: a participant mutes or deafens itself.
#[derive(Debug)]
pub struct CallStateUpdate {
    pub channel_id: Uuid,
    pub muted: Option<bool>,
    pub deafened: Option<bool>,
}

/// Inbound `voice.presence.enter` and `voice.presence.leave`, of the first
/// dialect.
#[derive(Debug)]
pub struct VoicePresence {
    pub channel_id: Uuid,
}

/// Inbound `voice.track.published` and `voice.track.unpublished`, of the
/// first dialect. `source` is `"camera"`, `"screen_share"` or
/// `"screen_share_audio"`.
#[derive(Debug)]
pub struct VoiceTrack {
    pub channel_id: Uuid,
    pub source: String,
    pub track_sid: Option<String>,
}

/// Inbound `voice.move_member`: the owner of a community drags a member to
/// another voice channel. The client of the member performs the move.
#[derive(Debug)]
pub struct VoiceMoveMember {
    pub user_id: Uuid,
    pub channel_id: Uuid,
}

/// Outbound `voice.moved`, to the member who is moved.
#[derive(Debug)]
pub struct VoiceMoved {
    pub channel_id: Uuid,
    pub moved_by: Uuid,
}

/// Inbound `voice.disconnect_member`. The owner may name anyone; any member
/// of the community may name the music bot.
#[derive(Debug)]
pub struct VoiceDisconnectMember {
    pub user_id: Uuid,
    pub channel_id: Uuid,
}

/// Outbound `voice.disconnected`, to the member who is disconnected.
#[derive(Debug)]
pub struct VoiceDisconnected {
    pub channel_id: Uuid,
    pub by: Uuid,
}

/// A participant of a call.
#[derive(Debug)]
pub struct ParticipantDto {
    pub user_id: Uuid,
    pub muted: bool,
    pub deafened: bool,
    pub is_bot: bool,
}

/// A live stream of a call. `msid` is the stream identifier of the
/// publisher, passed on as it is.
#[derive(Debug)]
pub struct StreamDto {
    pub stream_id: Uuid,
    pub owner: Uuid,
    pub kind: String,
    pub label: Option<String>,
    pub has_audio: bool,
    pub msid: Option<String>,
}

/// The participants and streams of a call.
#[derive(Debug)]
pub struct CallSnapshot {
    pub channel_id: Uuid,
    pub participants: Vec<ParticipantDto>,
    pub streams: Vec<StreamDto>,
}

/// Outbound `call.peer_joined`.
#[derive(Debug)]
pub struct CallPeerJoined {
    pub channel_id: Uuid,
    pub participant: ParticipantDto,
}

/// Outbound `call.peer_left`.
#[derive(Debug)]
pub struct CallPeerLeft {
    pub channel_id: Uuid,
    pub user_id: Uuid,
    pub reason: String,
    pub is_bot: bool,
}

/// Outbound `call.state.update`.
#[derive(Debug)]
pub struct CallStateUpdateEvent {
    pub channel_id: Uuid,
    pub user_id: Uuid,
    pub muted: bool,
    pub deafened: bool,
}

/// A participant of a roster.
#[derive(Debug)]
pub struct VoiceRosterEntry {
    pub user_id: Uuid,
    pub muted: bool,
    pub deafened: bool,
    pub sharing: bool,
    pub is_bot: bool,
}

/// Outbound `voice.roster`: who is in a channel, in the first dialect.
#[derive(Debug)]
pub struct VoiceRoster {
    pub channel_id: Uuid,
    pub participants: Vec<VoiceRosterEntry>,
    pub streams: Vec<StreamDto>,
}

/// Outbound `voice.rooms`: every roster, in the first dialect.
#[derive(Debug)]
pub struct VoiceRoomsSnapshot {
    pub rooms: Vec<VoiceRoster>,
}

/// A participant of a room.
#[derive(Debug)]
pub struct VoiceParticipantDto {
    pub user_id: Uuid,
    pub participant_sid: Option<String>,
    pub muted: bool,
    pub deafened: bool,
    pub is_bot: bool,
    pub provisional: bool,
    pub joined_at: UtcTime,
}

/// A track of a room.
#[derive(Debug)]
pub struct VoiceTrackDto {
    pub track_sid: String,
    pub owner: Uuid,
    pub owner_sid: Option<String>,
    pub source: String,
    pub muted: bool,
}

/// A room, with its version.
#[derive(Debug)]
pub struct VoiceRoomDto {
    pub channel_id: Uuid,
    pub version: u64,
    pub participants: Vec<VoiceParticipantDto>,
    pub tracks: Vec<VoiceTrackDto>,
}

/// Outbound `voice.room.state`. `channel_ids` is `None` in a complete
/// snapshot; a filtered one names the exact scope that was asked for, so that
/// a client can replace those channels and leave the others.
#[derive(Debug)]
pub struct VoiceRoomState {
    pub full: bool,
    pub channel_ids: Option<Vec<Uuid>>,
    pub rooms: Vec<VoiceRoomDto>,
}

/// Outbound `voice.room.delta`: what changed from `previous_version` to
/// `version`.
#[derive(Debug)]
pub struct VoiceRoomDelta {
    pub channel_id: Uuid,
    pub version: u64,
    pub previous_version: u64,
    pub participants_added: Vec<VoiceParticipantDto>,
    pub participants_updated: Vec<VoiceParticipantDto>,
    pub participants_removed: Vec<Uuid>,
    pub tracks_added: Vec<VoiceTrackDto>,
    pub tracks_removed: Vec<String>,
    pub reason: String,
}

/// Inbound `voice.room.request`. No identifiers means every visible channel.
#[derive(Debug)]
pub struct VoiceRoomRequest {
    pub channel_ids: Vec<Uuid>,
}

/// Inbound `voice.presence.hint`. `state` is `"joining"` or `"leaving"`.
#[derive(Debug)]
pub struct VoicePresenceHint {
    pub channel_id: Uuid,
    pub state: String,
    pub participant_sid: Option<String>,
}

/// Inbound `voice.track.hint`. `state` is `"published"` or `"unpublished"`.
#[derive(Debug)]
pub struct VoiceTrackHint {
    pub channel_id: Uuid,
    pub track_sid: String,
    pub source: String,
    pub state: String,
}

/// An offer, passed on between two participants.
#[derive(Debug)]
pub struct RtcOffer {
    pub channel_id: Uuid,
    pub to: Uuid,
    pub sdp: String,
}

/// An answer, passed on between two participants.
#[derive(Debug)]
pub struct RtcAnswer {
    pub channel_id: Uuid,
    pub to: Uuid,
    pub sdp: String,
}

/// A candidate, passed on between two participants.
#[derive(Debug)]
pub struct RtcIce {
    pub channel_id: Uuid,
    pub to: Uuid,
    pub candidate: serde_json::Value,
}

/// The state of a connection between two participants.
#[derive(Debug)]
pub struct RtcConnectionState {
    pub channel_id: Uuid,
    pub to: Uuid,
    pub state: String,
}

/// Inbound `stream.publish`. `kind` is `"screen"`, `"camera"` or `"music"`.
#[derive(Debug)]
pub struct StreamPublish {
    pub channel_id: Uuid,
    pub stream_id: Uuid,
    pub kind: String,
    pub label: Option<String>,
    pub has_audio: bool,
    pub msid: Option<String>,
}

/// Outbound `stream.published`.
#[derive(Debug)]
pub struct StreamPublished {
    pub channel_id: Uuid,
    pub stream_id: Uuid,
    pub owner: Uuid,
    pub kind: String,
    pub label: Option<String>,
    pub has_audio: bool,
    pub msid: Option<String>,
}

/// Inbound `stream.unpublish`.
#[derive(Debug)]
pub struct StreamUnpublish {
    pub channel_id: Uuid,
    pub stream_id: Uuid,
}

/// Outbound `stream.unpublished`.
#[derive(Debug)]
pub struct StreamUnpublished {
    pub channel_id: Uuid,
    pub stream_id: Uuid,
}

/// Inbound `stream.subscribe`.
#[derive(Debug)]
pub struct StreamSubscribe {
    pub channel_id: Uuid,
    pub stream_id: Uuid,
}

/// Outbound `stream.subscription_requested`.
#[derive(Debug)]
pub struct StreamSubscriptionRequested {
    pub channel_id: Uuid,
    pub stream_id: Uuid,
    pub subscriber: Uuid,
}

/// Inbound `stream.unsubscribe`.
#[derive(Debug)]
pub struct StreamUnsubscribe {
    pub channel_id: Uuid,
    pub stream_id: Uuid,
}

/// Outbound `stream.unsubscribed`.
#[derive(Debug)]
pub struct StreamUnsubscribed {
    pub channel_id: Uuid,
    pub stream_id: Uuid,
    pub subscriber: Uuid,
}

/// Inbound `music.command`. The bot answers in `channel_id`; `command` is
/// `"play"`, `"pause"`, `"resume"`, `"skip"`, `"stop"` or `"queue"`.
#[derive(Debug)]
pub struct MusicCommand {
    pub channel_id: Uuid,
    pub voice_channel_id: Uuid,
    pub command: String,
    pub query: Option<String>,
}

/// Inbound `music.status`: what the music bot is doing, shown as a card in
/// the text channel `channel_id`.
#[derive(Debug)]
pub struct MusicStatus {
    pub status_id: Uuid,
    pub channel_id: Uuid,
    pub kind: String,
    pub origin: Option<String>,
    pub provider: Option<String>,
    pub title: Option<String>,
    pub artist: Option<String>,
    pub detail: Option<String>,
    pub count: Option<u32>,
    pub position: Option<u32>,
    pub queue_size: Option<u32>,
    pub duration_ms: Option<u64>,
    pub total_duration_ms: Option<u64>,
    pub eta_ms: Option<u64>,
    pub image_url: Option<String>,
    pub source_url: Option<String>,
    pub collection_name: Option<String>,
    pub collection_kind: Option<String>,
    pub requested_by: Option<Uuid>,
    pub items: Vec<MusicStatusItem>,
}

/// A queued song.
#[derive(Debug)]
pub struct MusicStatusItem {
    pub title: String,
    pub artist: Option<String>,
    pub duration_ms: Option<u64>,
}

/// Inbound `device.list_changed`.
#[derive(Debug)]
pub struct DeviceListChanged {
    pub summary: Option<String>,
}

/// An error is an envelope of the first form, named `error`, with its code, its
/// text, and the request that it answers, where there is one.
pub proof fn law_error_form(
    m: OutboundEnvelope,
    code: Seq<char>,
    text: Seq<char>,
    in_reply_to: Option<Seq<char>>,
)
    ensures
        m.is_error(code, text, in_reply_to) <==> {
            &&& m.v == 1
            &&& m.op@ == "error"@
            &&& m.data is Error
            &&& m.data->Error_0.code@ == code
            &&& m.data->Error_0.message@ == text
            &&& m.data->Error_0.in_reply_to is Some <==> in_reply_to is Some
            &&& in_reply_to is Some ==> m.data->Error_0.in_reply_to->0@ == in_reply_to->0
        },
{
}

/// A message is an envelope of the first form, with its name and its data.
pub proof fn law_message_form(m: OutboundEnvelope, op: Seq<char>, data: Payload)
    ensures
        m.is_message(op, data) <==> m.v == 1 && m.op@ == op && m.data == data,
{
}

/// The server speaks two dialects; rooms are told of in the second, and rosters
/// in the first.
pub proof fn law_dialects(v: u8)
    ensures
        v <= MAX_SERVER_PROTOCOL <==> v <= 2,
        v >= ROOM_PROTOCOL <==> v >= 2,
        v <= ROSTER_PROTOCOL <==> v <= 1,
{
}

/// A client that names no dialect speaks the first.
pub proof fn law_default_dialect(r: u8)
    requires
        call_ensures(default_protocol_version, (), r),
    ensures
        r == 1,
{
}

} // verus!
