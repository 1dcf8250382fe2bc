//! What a client may ask for, by the name of the operation, and the smaller
//! answers.

use vstd::prelude::*;

use crate::ident::{law_uuid_text_injective, uuid_text, uuid_to_string, Uuid};
use crate::protocol::{
    ActivityReport, CallStateUpdate, Channel, ChatMessageCreate, ChatMessageDelete, ChatMessageEdit,
    ChatTyping, ChatTypingEvent, DeviceListChanged, DmOpen, DmOpened, MusicCommand, MusicStatus,
    OutboundEnvelope, Payload, PresenceSet, StreamPublish, StreamUnpublish, VoiceDisconnectMember,
    VoiceMoveMember, VoicePresence, VoicePresenceHint, VoiceRoomRequest, VoiceTrack, VoiceTrackHint,
};
use crate::text::{joined_text, same_text};
use crate::ws::handshake::{is_presence_update, presence_update};
use crate::ws::presence::plain_error;

verus! {

/// The operations that a client may ask for.
#[derive(Debug, Clone, Copy, PartialEq, Eq, Structural)]
pub enum Op {
    ChatMessageCreate,
    ChatMessageEdit,
    ChatMessageDelete,
    ActivityReport,
    PresenceSet,
    DmOpen,
    ChatTyping,
    VoicePresenceHint,
    VoiceTrackHint,
    VoiceRoomRequest,
    VoicePresenceEnter,
    VoicePresenceLeave,
    VoiceRoomsRequest,
    VoiceTrackPublished,
    VoiceTrackUnpublished,
    StreamPublish,
    StreamUnpublish,
    CallStateUpdate,
    VoiceMoveMember,
    VoiceDisconnectMember,
    MusicCommand,
    MusicStatus,
    DeviceListChanged,
}

impl Op {
    /// The name of an operation in messages.
    pub open spec fn wire(self) -> Seq<char> {
        match self {
            Op::ChatMessageCreate => "chat.message.create"@,
            Op::ChatMessageEdit => "chat.message.edit"@,
            Op::ChatMessageDelete => "chat.message.delete"@,
            Op::ActivityReport => "activity.report"@,
            Op::PresenceSet => "presence.set"@,
            Op::DmOpen => "dm.open"@,
            Op::ChatTyping => "chat.typing"@,
            Op::VoicePresenceHint => "voice.presence.hint"@,
            Op::VoiceTrackHint => "voice.track.hint"@,
            Op::VoiceRoomRequest => "voice.room.request"@,
            Op::VoicePresenceEnter => "voice.presence.enter"@,
            Op::VoicePresenceLeave => "voice.presence.leave"@,
            Op::VoiceRoomsRequest => "voice.rooms.request"@,
            Op::VoiceTrackPublished => "voice.track.published"@,
            Op::VoiceTrackUnpublished => "voice.track.unpublished"@,
            Op::StreamPublish => "stream.publish"@,
            Op::StreamUnpublish => "stream.unpublish"@,
            Op::CallStateUpdate => "call.state.update"@,
            Op::VoiceMoveMember => "voice.move_member"@,
            Op::VoiceDisconnectMember => "voice.disconnect_member"@,
            Op::MusicCommand => "music.command"@,
            Op::MusicStatus => "music.status"@,
            Op::DeviceListChanged => "device.list_changed"@,
        }
    }

    /// The operation of a name, if there is one.
    pub fn parse(value: &str) -> (r: Option<Op>)
        ensures
            r matches Some(op) ==> op.wire() == value@,
            r is None ==> forall|op: Op| #[trigger] op.wire() != value@,
    {
        if same_text(value, "chat.message.create") {
            Some(Op::ChatMessageCreate)
        } else if same_text(value, "chat.message.edit") {
            Some(Op::ChatMessageEdit)
        } else if same_text(value, "chat.message.delete") {
            Some(Op::ChatMessageDelete)
        } else if same_text(value, "activity.report") {
            Some(Op::ActivityReport)
        } else if same_text(value, "presence.set") {
            Some(Op::PresenceSet)
        } else if same_text(value, "dm.open") {
            Some(Op::DmOpen)
        } else if same_text(value, "chat.typing") {
            Some(Op::ChatTyping)
        } else if same_text(value, "voice.presence.hint") {
            Some(Op::VoicePresenceHint)
        } else if same_text(value, "voice.track.hint") {
            Some(Op::VoiceTrackHint)
        } else if same_text(value, "voice.room.request") {
            Some(Op::VoiceRoomRequest)
        } else if same_text(value, "voice.presence.enter") {
            Some(Op::VoicePresenceEnter)
        } else if same_text(value, "voice.presence.leave") {
            Some(Op::VoicePresenceLeave)
        } else if same_text(value, "voice.rooms.request") {
            Some(Op::VoiceRoomsRequest)
        } else if same_text(value, "voice.track.published") {
            Some(Op::VoiceTrackPublished)
        } else if same_text(value, "voice.track.unpublished") {
            Some(Op::VoiceTrackUnpublished)
        } else if same_text(value, "stream.publish") {
            Some(Op::StreamPublish)
        } else if same_text(value, "stream.unpublish") {
            Some(Op::StreamUnpublish)
        } else if same_text(value, "call.state.update") {
            Some(Op::CallStateUpdate)
        } else if same_text(value, "voice.move_member") {
            Some(Op::VoiceMoveMember)
        } else if same_text(value, "voice.disconnect_member") {
            Some(Op::VoiceDisconnectMember)
        } else if same_text(value, "music.command") {
            Some(Op::MusicCommand)
        } else if same_text(value, "music.status") {
            Some(Op::MusicStatus)
        } else if same_text(value, "device.list_changed") {
            Some(Op::DeviceListChanged)
        } else {
            None
        }
    }
}

/// Two operations have different names.
pub proof fn law_op_names_differ(a: Op, b: Op)
    requires
        a.wire() == b.wire(),
    ensures
        a == b,
{
    reveal_strlit("chat.message.create");
    reveal_strlit("chat.message.edit");
    reveal_strlit("chat.message.delete");
    reveal_strlit("activity.report");
    reveal_strlit("presence.set");
    reveal_strlit("dm.open");
    reveal_strlit("chat.typing");
    reveal_strlit("voice.presence.hint");
    reveal_strlit("voice.track.hint");
    reveal_strlit("voice.room.request");
    reveal_strlit("voice.presence.enter");
    reveal_strlit("voice.presence.leave");
    reveal_strlit("voice.rooms.request");
    reveal_strlit("voice.track.published");
    reveal_strlit("voice.track.unpublished");
    reveal_strlit("stream.publish");
    reveal_strlit("stream.unpublish");
    reveal_strlit("call.state.update");
    reveal_strlit("voice.move_member");
    reveal_strlit("voice.disconnect_member");
    reveal_strlit("music.command");
    reveal_strlit("music.status");
    reveal_strlit("device.list_changed");
    let s = a.wire();
    let t = b.wire();
    assert(s[0] == t[0]);
    assert(s[1] == t[1]);
    assert(s[6] == t[6]);
    assert(s[13] == t[13]);
    assert(s[15] == t[15]);
}

/// The answer to what is not an envelope.
pub fn malformed_envelope(detail: &str) -> (r: OutboundEnvelope)
    ensures
        r.is_error("bad_request"@, "malformed envelope: "@ + detail@, None),
{
    let message: String = joined_text("malformed envelope: ", detail);
    OutboundEnvelope::error("bad_request", message.as_str(), None)
}

/// The answer to data that do not fit their operation.
pub fn invalid_payload(op: &str, detail: &str) -> (r: OutboundEnvelope)
    ensures
        r.is_error("bad_request"@, "invalid payload for "@ + op@ + ": "@ + detail@, None),
{
    let mut message: String = joined_text("invalid payload for ", op);
    message.append(": ");
    message.append(detail);
    OutboundEnvelope::error("bad_request", message.as_str(), None)
}

/// The answer to an operation that there is not.
pub fn unknown_op(op: &str) -> (r: OutboundEnvelope)
    ensures
        r.is_error("unknown_op"@, "unknown op: "@ + op@, None),
{
    let message: String = joined_text("unknown op: ", op);
    OutboundEnvelope::error("unknown_op", message.as_str(), None)
}

/// `voice.presence.enter` of the first dialect, as a hint.
fn entering(data: VoicePresence) -> (r: VoicePresenceHint)
    ensures
        r.channel_id == data.channel_id,
        r.state@ == "joining"@,
        r.participant_sid is None,
{
    VoicePresenceHint {
        channel_id: data.channel_id,
        state: "joining".to_string(),
        participant_sid: None,
    }
}

/// `voice.presence.leave` of the first dialect, as a hint.
fn leaving(data: VoicePresence) -> (r: VoicePresenceHint)
    ensures
        r.channel_id == data.channel_id,
        r.state@ == "leaving"@,
        r.participant_sid is None,
{
    VoicePresenceHint {
        channel_id: data.channel_id,
        state: "leaving".to_string(),
        participant_sid: None,
    }
}

/// `voice.track.published` or `voice.track.unpublished` of the first dialect,
/// as a hint. A track without a SID cannot be named: the hint is dropped.
fn track_hint(data: VoiceTrack, published: bool) -> (r: Option<VoiceTrackHint>)
    ensures
        r is Some <==> data.track_sid is Some,
        r matches Some(hint) ==> {
            &&& hint.channel_id == data.channel_id
            &&& Some(hint.track_sid) == data.track_sid
            &&& hint.source == data.source
            &&& hint.state@ == if published {
                "published"@
            } else {
                "unpublished"@
            }
        },
{
    let state: &str = if published {
        "published"
    } else {
        "unpublished"
    };
    match data.track_sid {
        Some(track_sid) => Some(
            VoiceTrackHint {
                channel_id: data.channel_id,
                track_sid,
                source: data.source,
                state: state.to_string(),
            },
        ),
        None => None,
    }
}

/// A request of a client, in the dialect in which it came.
#[derive(Debug)]
pub enum Inbound {
    ChatMessageCreate(ChatMessageCreate),
    ChatMessageEdit(ChatMessageEdit),
    ChatMessageDelete(ChatMessageDelete),
    ActivityReport(ActivityReport),
    PresenceSet(PresenceSet),
    DmOpen(DmOpen),
    ChatTyping(ChatTyping),
    VoicePresenceHint(VoicePresenceHint),
    VoiceTrackHint(VoiceTrackHint),
    VoiceRoomRequest(VoiceRoomRequest),
    StreamPublish(StreamPublish),
    StreamUnpublish(StreamUnpublish),
    CallStateUpdate(CallStateUpdate),
    VoiceMoveMember(VoiceMoveMember),
    VoiceDisconnectMember(VoiceDisconnectMember),
    MusicCommand(MusicCommand),
    MusicStatus(MusicStatus),
    DeviceListChanged(DeviceListChanged),
    VoicePresenceEnter(VoicePresence),
    VoicePresenceLeave(VoicePresence),
    VoiceRoomsRequest,
    VoiceTrackPublished(VoiceTrack),
    VoiceTrackUnpublished(VoiceTrack),
}

/// A request in the second dialect. Requests of the first one are turned into
/// these, so that the dialects never drift apart.
#[derive(Debug)]
pub enum Command {
    ChatMessageCreate(ChatMessageCreate),
    ChatMessageEdit(ChatMessageEdit),
    ChatMessageDelete(ChatMessageDelete),
    ActivityReport(ActivityReport),
    PresenceSet(PresenceSet),
    DmOpen(DmOpen),
    ChatTyping(ChatTyping),
    VoicePresenceHint(VoicePresenceHint),
    VoiceTrackHint(VoiceTrackHint),
    VoiceRoomRequest(VoiceRoomRequest),
    StreamPublish(StreamPublish),
    StreamUnpublish(StreamUnpublish),
    CallStateUpdate(CallStateUpdate),
    VoiceMoveMember(VoiceMoveMember),
    VoiceDisconnectMember(VoiceDisconnectMember),
    MusicCommand(MusicCommand),
    MusicStatus(MusicStatus),
    DeviceListChanged(DeviceListChanged),
}

/// Is this the hint that a client of the first dialect gave about `channel`?
pub open spec fn is_plain_hint(c: Option<Command>, channel: Uuid, state: Seq<char>) -> bool {
    c matches Some(Command::VoicePresenceHint(h)) && h.channel_id == channel && h.state@ == state
        && h.participant_sid is None
}

/// Is this what became of a track hint of the first dialect?
pub open spec fn is_track_hint(c: Option<Command>, data: VoiceTrack, state: Seq<char>) -> bool {
    match data.track_sid {
        Some(sid) => c matches Some(Command::VoiceTrackHint(h)) && h.channel_id == data.channel_id
            && h.track_sid == sid && h.source == data.source && h.state@ == state,
        None => c is None,
    }
}

/// What is asked for. `None`: a track hint of the first dialect that names no
/// SID is dropped.
pub fn dispatch(inbound: Inbound) -> (r: Option<Command>)
    ensures
        match inbound {
            Inbound::ChatMessageCreate(d) => r == Some(Command::ChatMessageCreate(d)),
            Inbound::ChatMessageEdit(d) => r == Some(Command::ChatMessageEdit(d)),
            Inbound::ChatMessageDelete(d) => r == Some(Command::ChatMessageDelete(d)),
            Inbound::ActivityReport(d) => r == Some(Command::ActivityReport(d)),
            Inbound::PresenceSet(d) => r == Some(Command::PresenceSet(d)),
            Inbound::DmOpen(d) => r == Some(Command::DmOpen(d)),
            Inbound::ChatTyping(d) => r == Some(Command::ChatTyping(d)),
            Inbound::VoicePresenceHint(d) => r == Some(Command::VoicePresenceHint(d)),
            Inbound::VoiceTrackHint(d) => r == Some(Command::VoiceTrackHint(d)),
            Inbound::VoiceRoomRequest(d) => r == Some(Command::VoiceRoomRequest(d)),
            Inbound::StreamPublish(d) => r == Some(Command::StreamPublish(d)),
            Inbound::StreamUnpublish(d) => r == Some(Command::StreamUnpublish(d)),
            Inbound::CallStateUpdate(d) => r == Some(Command::CallStateUpdate(d)),
            Inbound::VoiceMoveMember(d) => r == Some(Command::VoiceMoveMember(d)),
            Inbound::VoiceDisconnectMember(d) => r == Some(Command::VoiceDisconnectMember(d)),
            Inbound::MusicCommand(d) => r == Some(Command::MusicCommand(d)),
            Inbound::MusicStatus(d) => r == Some(Command::MusicStatus(d)),
            Inbound::DeviceListChanged(d) => r == Some(Command::DeviceListChanged(d)),
            Inbound::VoicePresenceEnter(d) => is_plain_hint(r, d.channel_id, "joining"@),
            Inbound::VoicePresenceLeave(d) => is_plain_hint(r, d.channel_id, "leaving"@),
            Inbound::VoiceRoomsRequest => r matches Some(Command::VoiceRoomRequest(q))
                && q.channel_ids@.len() == 0,
            Inbound::VoiceTrackPublished(d) => is_track_hint(r, d, "published"@),
            Inbound::VoiceTrackUnpublished(d) => is_track_hint(r, d, "unpublished"@),
        },
{
    match inbound {
        Inbound::ChatMessageCreate(d) => Some(Command::ChatMessageCreate(d)),
        Inbound::ChatMessageEdit(d) => Some(Command::ChatMessageEdit(d)),
        Inbound::ChatMessageDelete(d) => Some(Command::ChatMessageDelete(d)),
        Inbound::ActivityReport(d) => Some(Command::ActivityReport(d)),
        Inbound::PresenceSet(d) => Some(Command::PresenceSet(d)),
        Inbound::DmOpen(d) => Some(Command::DmOpen(d)),
        Inbound::ChatTyping(d) => Some(Command::ChatTyping(d)),
        Inbound::VoicePresenceHint(d) => Some(Command::VoicePresenceHint(d)),
        Inbound::VoiceTrackHint(d) => Some(Command::VoiceTrackHint(d)),
        Inbound::VoiceRoomRequest(d) => Some(Command::VoiceRoomRequest(d)),
        Inbound::StreamPublish(d) => Some(Command::StreamPublish(d)),
        Inbound::StreamUnpublish(d) => Some(Command::StreamUnpublish(d)),
        Inbound::CallStateUpdate(d) => Some(Command::CallStateUpdate(d)),
        Inbound::VoiceMoveMember(d) => Some(Command::VoiceMoveMember(d)),
        Inbound::VoiceDisconnectMember(d) => Some(Command::VoiceDisconnectMember(d)),
        Inbound::MusicCommand(d) => Some(Command::MusicCommand(d)),
        Inbound::MusicStatus(d) => Some(Command::MusicStatus(d)),
        Inbound::DeviceListChanged(d) => Some(Command::DeviceListChanged(d)),
        Inbound::VoicePresenceEnter(d) => Some(Command::VoicePresenceHint(entering(d))),
        Inbound::VoicePresenceLeave(d) => Some(Command::VoicePresenceHint(leaving(d))),
        Inbound::VoiceRoomsRequest => Some(
            Command::VoiceRoomRequest(VoiceRoomRequest { channel_ids: Vec::new() }),
        ),
        Inbound::VoiceTrackPublished(d) => match track_hint(d, true) {
            Some(hint) => Some(Command::VoiceTrackHint(hint)),
            None => None,
        },
        Inbound::VoiceTrackUnpublished(d) => match track_hint(d, false) {
            Some(hint) => Some(Command::VoiceTrackHint(hint)),
            None => None,
        },
    }
}

/// The status that a member asked for: busy, or else online. And what the
/// others are told.
pub fn presence_set(user_id: Uuid, data: &PresenceSet) -> (r: (&'static str, OutboundEnvelope))
    ensures
        r.0@ == if data.status@ == "busy"@ {
            "busy"@
        } else {
            "online"@
        },
        is_presence_update(r.1, user_id, r.0@),
{
    let status: &'static str = if same_text(data.status.as_str(), "busy") {
        "busy"
    } else {
        "online"
    };
    (status, presence_update(user_id, status))
}

/// The topic of the private channel of two members, whoever of them opens it.
pub open spec fn dm_topic(a: Uuid, b: Uuid) -> Seq<char> {
    if a < b {
        "dm:"@ + uuid_text(a) + ":"@ + uuid_text(b)
    } else {
        "dm:"@ + uuid_text(b) + ":"@ + uuid_text(a)
    }
}

/// A private channel to look for, and to make where there is none.
#[derive(Debug)]
pub struct DmPlan {
    pub community_id: Uuid,
    pub topic: String,
    pub name: String,
    pub kind: String,
    pub position: i32,
}

/// The private channel that a member asks for. `None` for oneself, and for a
/// member without a community.
pub fn dm_plan(user_id: Uuid, target_user_id: Uuid, community: Option<Uuid>) -> (r: Option<DmPlan>)
    ensures
        r is Some <==> user_id != target_user_id && community is Some,
        r matches Some(plan) ==> {
            &&& Some(plan.community_id) == community
            &&& plan.topic@ == dm_topic(user_id, target_user_id)
            &&& plan.name@ == "dm"@
            &&& plan.kind@ == "text"@
            &&& plan.position == 9999
        },
{
    if user_id == target_user_id {
        return None;
    }
    match community {
        Some(community_id) => {
            let (first, second): (Uuid, Uuid) = if user_id < target_user_id {
                (user_id, target_user_id)
            } else {
                (target_user_id, user_id)
            };
            let first_text: String = uuid_to_string(first);
            let second_text: String = uuid_to_string(second);
            let mut topic: String = joined_text("dm:", first_text.as_str());
            topic.append(":");
            topic.append(second_text.as_str());
            Some(
                DmPlan {
                    community_id,
                    topic,
                    name: "dm".to_string(),
                    kind: "text".to_string(),
                    position: 9999,
                },
            )
        },
        None => None,
    }
}

/// What the member who asked is told.
pub fn dm_opened(channel: Channel, data: DmOpen) -> (r: OutboundEnvelope)
    ensures
        r.is_message(
            "dm.opened"@,
            Payload::DmOpened(
                DmOpened { channel, target_user_id: data.target_user_id, req_id: data.req_id },
            ),
        ),
{
    OutboundEnvelope::new(
        "dm.opened",
        Payload::DmOpened(
            DmOpened { channel, target_user_id: data.target_user_id, req_id: data.req_id },
        ),
    )
}

/// What a community is told of someone who types, and which community:
/// nothing, unless the channel is a text channel that the typist can see.
pub fn typing(user_id: Uuid, channel: Option<&Channel>, data: &ChatTyping) -> (r: Option<
    (Uuid, OutboundEnvelope),
>)
    ensures
        r is Some <==> (channel matches Some(c) && c.kind@ == "text"@),
        r matches Some(told) ==> {
            &&& told.0 == channel->0.community_id
            &&& told.1.is_message(
                "chat.typing"@,
                Payload::ChatTyping(ChatTypingEvent { channel_id: data.channel_id, user_id }),
            )
        },
{
    match channel {
        Some(c) => {
            if same_text(c.kind.as_str(), "text") {
                Some(
                    (
                        c.community_id,
                        OutboundEnvelope::new(
                            "chat.typing",
                            Payload::ChatTyping(
                                ChatTypingEvent { channel_id: data.channel_id, user_id },
                            ),
                        ),
                    ),
                )
            } else {
                None
            }
        },
        None => None,
    }
}

/// Two members have one private channel, whoever of them opens it, and no two
/// pairs share one.
pub proof fn law_dm_topic_names_the_pair(a: Uuid, b: Uuid, c: Uuid, d: Uuid)
    ensures
        dm_topic(a, b) == dm_topic(b, a),
        dm_topic(a, b) == dm_topic(c, d) <==> (a == c && b == d) || (a == d && b == c),
{
    reveal_strlit("dm:");
    reveal_strlit(":");
    let (x, y) = if a < b {
        (a, b)
    } else {
        (b, a)
    };
    let (z, w) = if c < d {
        (c, d)
    } else {
        (d, c)
    };
    let s = dm_topic(a, b);
    let t = dm_topic(c, d);
    assert(uuid_text(x) =~= s.subrange(3, 39));
    assert(uuid_text(y) =~= s.subrange(40, 76));
    assert(uuid_text(z) =~= t.subrange(3, 39));
    assert(uuid_text(w) =~= t.subrange(40, 76));
    if s == t {
        law_uuid_text_injective(x, z);
        law_uuid_text_injective(y, w);
    }
}

/// Each operation has its name in the protocol.
pub proof fn law_op_names(op: Op)
    ensures
        op.wire() == match op {
            Op::ChatMessageCreate => "chat.message.create"@,
            Op::ChatMessageEdit => "chat.message.edit"@,
            Op::ChatMessageDelete => "chat.message.delete"@,
            Op::ActivityReport => "activity.report"@,
            Op::PresenceSet => "presence.set"@,
            Op::DmOpen => "dm.open"@,
            Op::ChatTyping => "chat.typing"@,
            Op::VoicePresenceHint => "voice.presence.hint"@,
            Op::VoiceTrackHint => "voice.track.hint"@,
            Op::VoiceRoomRequest => "voice.room.request"@,
            Op::VoicePresenceEnter => "voice.presence.enter"@,
            Op::VoicePresenceLeave => "voice.presence.leave"@,
            Op::VoiceRoomsRequest => "voice.rooms.request"@,
            Op::VoiceTrackPublished => "voice.track.published"@,
            Op::VoiceTrackUnpublished => "voice.track.unpublished"@,
            Op::StreamPublish => "stream.publish"@,
            Op::StreamUnpublish => "stream.unpublish"@,
            Op::CallStateUpdate => "call.state.update"@,
            Op::VoiceMoveMember => "voice.move_member"@,
            Op::VoiceDisconnectMember => "voice.disconnect_member"@,
            Op::MusicCommand => "music.command"@,
            Op::MusicStatus => "music.status"@,
            Op::DeviceListChanged => "device.list_changed"@,
        },
{
}

/// To enter or to leave in the first dialect is to hint so in the second, of the
/// same channel, without naming a session. A track is hinted at likewise, with
/// all that is said of it, unless it has no SID: then nothing is asked for.
pub proof fn law_first_dialect_read(c: Option<Command>, channel: Uuid, state: Seq<char>, data: VoiceTrack)
    ensures
        is_plain_hint(c, channel, state) <==> {
            &&& c is Some && c->0 is VoicePresenceHint
            &&& c->0->VoicePresenceHint_0.channel_id == channel
            &&& c->0->VoicePresenceHint_0.state@ == state
            &&& c->0->VoicePresenceHint_0.participant_sid is None
        },
        data.track_sid is None ==> (is_track_hint(c, data, state) <==> c is None),
        data.track_sid is Some ==> (is_track_hint(c, data, state) <==> {
            &&& c is Some && c->0 is VoiceTrackHint
            &&& c->0->VoiceTrackHint_0.channel_id == data.channel_id
            &&& c->0->VoiceTrackHint_0.track_sid == data.track_sid->0
            &&& c->0->VoiceTrackHint_0.source == data.source
            &&& c->0->VoiceTrackHint_0.state@ == state
        }),
{
}

/// The topic of a private channel names both members, the lower identifier
/// first.
pub proof fn law_dm_topic_form(a: Uuid, b: Uuid)
    requires
        a <= b,
    ensures
        dm_topic(a, b) == "dm:"@ + uuid_text(a) + ":"@ + uuid_text(b),
        dm_topic(b, a) == "dm:"@ + uuid_text(a) + ":"@ + uuid_text(b),
{
}

/// What cannot be read is answered by why: that it is no envelope, that its data
/// do not fit its operation, or that there is no such operation.
pub proof fn law_unreadable_answered(
    op: &str,
    detail: &str,
    a: OutboundEnvelope,
    b: OutboundEnvelope,
    c: OutboundEnvelope,
)
    requires
        call_ensures(malformed_envelope, (detail,), a),
        call_ensures(invalid_payload, (op, detail), b),
        call_ensures(unknown_op, (op,), c),
    ensures
        plain_error(a, "bad_request"@, "malformed envelope: "@ + detail@),
        plain_error(b, "bad_request"@, "invalid payload for "@ + op@ + ": "@ + detail@),
        plain_error(c, "unknown_op"@, "unknown op: "@ + op@),
{
}

/// A request of the second dialect is what it is. One of the first is turned
/// into the hint or the request that says the same.
pub proof fn law_request_read(inbound: Inbound, r: Option<Command>)
    requires
        call_ensures(dispatch, (inbound,), r),
    ensures
        r is None <==> (inbound is VoiceTrackPublished
            && inbound->VoiceTrackPublished_0.track_sid is None) || (inbound is VoiceTrackUnpublished
            && inbound->VoiceTrackUnpublished_0.track_sid is None),
        inbound matches Inbound::ChatMessageCreate(d) ==> r == Some(Command::ChatMessageCreate(d)),
        inbound matches Inbound::ChatMessageEdit(d) ==> r == Some(Command::ChatMessageEdit(d)),
        inbound matches Inbound::ChatMessageDelete(d) ==> r == Some(Command::ChatMessageDelete(d)),
        inbound matches Inbound::ActivityReport(d) ==> r == Some(Command::ActivityReport(d)),
        inbound matches Inbound::PresenceSet(d) ==> r == Some(Command::PresenceSet(d)),
        inbound matches Inbound::DmOpen(d) ==> r == Some(Command::DmOpen(d)),
        inbound matches Inbound::ChatTyping(d) ==> r == Some(Command::ChatTyping(d)),
        inbound matches Inbound::VoicePresenceHint(d) ==> r == Some(Command::VoicePresenceHint(d)),
        inbound matches Inbound::VoiceTrackHint(d) ==> r == Some(Command::VoiceTrackHint(d)),
        inbound matches Inbound::VoiceRoomRequest(d) ==> r == Some(Command::VoiceRoomRequest(d)),
        inbound matches Inbound::StreamPublish(d) ==> r == Some(Command::StreamPublish(d)),
        inbound matches Inbound::StreamUnpublish(d) ==> r == Some(Command::StreamUnpublish(d)),
        inbound matches Inbound::CallStateUpdate(d) ==> r == Some(Command::CallStateUpdate(d)),
        inbound matches Inbound::VoiceMoveMember(d) ==> r == Some(Command::VoiceMoveMember(d)),
        inbound matches Inbound::VoiceDisconnectMember(d) ==> r == Some(
            Command::VoiceDisconnectMember(d),
        ),
        inbound matches Inbound::MusicCommand(d) ==> r == Some(Command::MusicCommand(d)),
        inbound matches Inbound::MusicStatus(d) ==> r == Some(Command::MusicStatus(d)),
        inbound matches Inbound::DeviceListChanged(d) ==> r == Some(Command::DeviceListChanged(d)),
        inbound matches Inbound::VoicePresenceEnter(d) ==> {
            let h = r->0->VoicePresenceHint_0;
            &&& r->0 is VoicePresenceHint
            &&& h.channel_id == d.channel_id && h.state@ == "joining"@ && h.participant_sid is None
        },
        inbound matches Inbound::VoicePresenceLeave(d) ==> {
            let h = r->0->VoicePresenceHint_0;
            &&& r->0 is VoicePresenceHint
            &&& h.channel_id == d.channel_id && h.state@ == "leaving"@ && h.participant_sid is None
        },
        inbound is VoiceRoomsRequest ==> r->0 is VoiceRoomRequest
            && r->0->VoiceRoomRequest_0.channel_ids@.len() == 0,
        inbound matches Inbound::VoiceTrackPublished(d) ==> (d.track_sid is Some ==> {
            let h = r->0->VoiceTrackHint_0;
            &&& r->0 is VoiceTrackHint
            &&& h.channel_id == d.channel_id && h.track_sid == d.track_sid->0 && h.source == d.source
            &&& h.state@ == "published"@
        }),
        inbound matches Inbound::VoiceTrackUnpublished(d) ==> (d.track_sid is Some ==> {
            let h = r->0->VoiceTrackHint_0;
            &&& r->0 is VoiceTrackHint
            &&& h.channel_id == d.channel_id && h.track_sid == d.track_sid->0 && h.source == d.source
            &&& h.state@ == "unpublished"@
        }),
{
}

/// A member who asks to be busy is, and any other one is online; the others are
/// told which.
pub proof fn law_status_set(user_id: Uuid, data: &PresenceSet, r: (&'static str, OutboundEnvelope))
    requires
        call_ensures(presence_set, (user_id, data), r),
    ensures
        data.status@ == "busy"@ ==> r.0@ == "busy"@,
        data.status@ != "busy"@ ==> r.0@ == "online"@,
        r.1.v == 1 && r.1.op@ == "presence.update"@ && r.1.data is PresenceUpdate,
        r.1.data->PresenceUpdate_0.user_id == user_id,
        r.1.data->PresenceUpdate_0.status@ == r.0@,
{
}

/// Two members of a community, and not one alone, have a private channel: a text
/// channel of that community, behind all others, named after both.
pub proof fn law_dm_planned(user_id: Uuid, target_user_id: Uuid, community: Option<Uuid>, r: Option<DmPlan>)
    requires
        call_ensures(dm_plan, (user_id, target_user_id, community), r),
    ensures
        r is None <==> user_id == target_user_id || community is None,
        r is Some ==> {
            let (low, high) = if user_id < target_user_id {
                (user_id, target_user_id)
            } else {
                (target_user_id, user_id)
            };
            &&& r->0.community_id == community->0
            &&& r->0.topic@ == "dm:"@ + uuid_text(low) + ":"@ + uuid_text(high)
            &&& r->0.name@ == "dm"@
            &&& r->0.kind@ == "text"@
            &&& r->0.position == 9999
        },
{
    if user_id < target_user_id {
        law_dm_topic_form(user_id, target_user_id);
    } else {
        law_dm_topic_form(target_user_id, user_id);
    }
}

/// Who asked for a private channel is told which it is, with whom, and in answer
/// to what.
pub proof fn law_dm_told(channel: Channel, data: DmOpen, r: OutboundEnvelope)
    requires
        call_ensures(dm_opened, (channel, data), r),
    ensures
        r.v == 1 && r.op@ == "dm.opened"@ && r.data is DmOpened,
        r.data->DmOpened_0.channel == channel,
        r.data->DmOpened_0.target_user_id == data.target_user_id,
        r.data->DmOpened_0.req_id == data.req_id,
{
}

/// That someone types is told to the community of the channel, where it is a
/// text channel that the typist sees, and to nobody where it is not.
pub proof fn law_typing_told(
    user_id: Uuid,
    channel: Option<&Channel>,
    data: &ChatTyping,
    r: Option<(Uuid, OutboundEnvelope)>,
)
    requires
        call_ensures(typing, (user_id, channel, data), r),
    ensures
        r is Some <==> channel is Some && channel->0.kind@ == "text"@,
        r is Some ==> {
            let told = r->0;
            let m = told.1;
            &&& told.0 == channel->0.community_id
            &&& m.v == 1 && m.op@ == "chat.typing"@ && m.data is ChatTyping
            &&& m.data->ChatTyping_0.channel_id == data.channel_id
            &&& m.data->ChatTyping_0.user_id == user_id
        },
{
}

} // verus!
