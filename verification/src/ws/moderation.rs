//! Moving members between voice channels, and putting them out.

use vstd::prelude::*;

use crate::ident::{Uuid, MUSIC_BOT_ID};
use crate::protocol::{
    Channel, MusicStopEvent, OutboundEnvelope, Payload, VoiceDisconnectMember, VoiceDisconnected,
    VoiceMoveMember, VoiceMoved,
};
use crate::text::same_text;
use crate::voice::laws::law_channel_of_finds;
use crate::voice::model::RegistryModel;
use crate::voice::registry::VoiceRegistry;
use crate::voice::types::{ChannelId, UserId};
use crate::ws::presence::plain_error;

verus! {

/// How long after an order the channels that it is about are confirmed, in
/// milliseconds.
pub const ORDER_RECONCILE_MS: u64 = 3_000;

/// Is this a voice channel?
pub open spec fn is_voice(channel: Option<&Channel>) -> bool {
    channel matches Some(c) && c.kind@ == "voice"@
}

/// Is this a voice channel?
fn is_voice_channel(channel: Option<&Channel>) -> (r: bool)
    ensures
        r == is_voice(channel),
{
    match channel {
        Some(c) => same_text(c.kind.as_str(), "voice"),
        None => false,
    }
}

/// What is to be done about an order that is carried out.
#[derive(Debug)]
pub struct Order {
    /// Who is told.
    pub recipient: UserId,
    /// What they are told.
    pub message: OutboundEnvelope,
    /// Is LiveKit to be asked to end the session of the member?
    pub end_session: bool,
    /// The channels that are to be confirmed after `ORDER_RECONCILE_MS`.
    pub reconcile: Vec<ChannelId>,
}

/// Why a move is refused, by code and text.
pub open spec fn move_fault(
    m: RegistryModel,
    actor_id: Uuid,
    data: VoiceMoveMember,
    dest: Option<&Channel>,
    actor_is_owner: bool,
    target_is_member: bool,
    target_online: bool,
) -> Option<(Seq<char>, Seq<char>)> {
    if !is_voice(dest) {
        Some(("not_found"@, "voice channel not found"@))
    } else if !actor_is_owner {
        Some(("forbidden"@, "only the community owner can move members"@))
    } else if data.user_id == actor_id {
        None
    } else if data.user_id != MUSIC_BOT_ID && !target_is_member {
        Some(("validation_error"@, "that member is not in this community"@))
    } else if m.channel_of(data.user_id) is None || !target_online {
        Some(("validation_error"@, "that member is not in a voice channel"@))
    } else {
        None
    }
}

/// What becomes of an order to move a member. The member's own client moves;
/// here it is only told to, and both ends are confirmed soon. To move oneself
/// is to join. `dest`: the channel to move to, where there is one.
pub fn on_move_member(
    registry: &VoiceRegistry,
    actor_id: UserId,
    data: &VoiceMoveMember,
    dest: Option<&Channel>,
    actor_is_owner: bool,
    target_is_member: bool,
    target_online: bool,
) -> (r: Result<Order, OutboundEnvelope>)
    ensures
        match move_fault(
            registry@,
            actor_id,
            *data,
            dest,
            actor_is_owner,
            target_is_member,
            target_online,
        ) {
            Some(fault) => r matches Err(e) && e.is_error(fault.0, fault.1, None),
            None => r matches Ok(order) && {
                &&& order.recipient == data.user_id
                &&& order.message.is_message(
                    "voice.moved"@,
                    Payload::VoiceMoved(
                        VoiceMoved { channel_id: data.channel_id, moved_by: actor_id },
                    ),
                )
                &&& !order.end_session
                &&& order.reconcile@ == if data.user_id == actor_id {
                    Seq::empty()
                } else {
                    seq![registry@.channel_of(data.user_id)->0, data.channel_id]
                }
            },
        },
{
    if !is_voice_channel(dest) {
        return Err(OutboundEnvelope::error("not_found", "voice channel not found", None));
    }
    if !actor_is_owner {
        return Err(
            OutboundEnvelope::error("forbidden", "only the community owner can move members", None),
        );
    }
    let message: OutboundEnvelope = OutboundEnvelope::new(
        "voice.moved",
        Payload::VoiceMoved(VoiceMoved { channel_id: data.channel_id, moved_by: actor_id }),
    );
    if data.user_id == actor_id {
        return Ok(
            Order { recipient: actor_id, message, end_session: false, reconcile: Vec::new() },
        );
    }
    if data.user_id != MUSIC_BOT_ID && !target_is_member {
        return Err(
            OutboundEnvelope::error(
                "validation_error",
                "that member is not in this community",
                None,
            ),
        );
    }
    match registry.channel_of(data.user_id) {
        Some(source) => {
            if !target_online {
                return Err(
                    OutboundEnvelope::error(
                        "validation_error",
                        "that member is not in a voice channel",
                        None,
                    ),
                );
            }
            let reconcile: Vec<ChannelId> = vec![source, data.channel_id];
            assert(reconcile@ =~= seq![source, data.channel_id]);
            Ok(Order { recipient: data.user_id, message, end_session: false, reconcile })
        },
        None => Err(
            OutboundEnvelope::error(
                "validation_error",
                "that member is not in a voice channel",
                None,
            ),
        ),
    }
}

/// Why it is refused to put a member out, by code and text.
pub open spec fn disconnect_fault(
    m: RegistryModel,
    data: VoiceDisconnectMember,
    dest: Option<&Channel>,
    actor_is_member: bool,
    actor_is_owner: bool,
) -> Option<(Seq<char>, Seq<char>)> {
    let is_bot = data.user_id == MUSIC_BOT_ID;
    if !is_voice(dest) {
        Some(("not_found"@, "voice channel not found"@))
    } else if is_bot && !actor_is_member {
        Some(("forbidden"@, "join this community first"@))
    } else if !is_bot && !actor_is_owner {
        Some(("forbidden"@, "only the community owner can disconnect members"@))
    } else if !(m.rooms.contains_key(data.channel_id)
        && m.rooms[data.channel_id].participants.contains_key(data.user_id)) {
        Some(("validation_error"@, "that member is not in this voice channel"@))
    } else {
        None
    }
}

/// What becomes of an order to put a member out of a channel. The owner of
/// the community may name anyone, and any member the music bot, which is told
/// to stop and to leave. Nobody is taken out here: LiveKit is asked to, and
/// the channel is confirmed soon.
pub fn on_disconnect_member(
    registry: &VoiceRegistry,
    actor_id: UserId,
    data: &VoiceDisconnectMember,
    dest: Option<&Channel>,
    actor_is_member: bool,
    actor_is_owner: bool,
) -> (r: Result<Order, OutboundEnvelope>)
    ensures
        match disconnect_fault(registry@, *data, dest, actor_is_member, actor_is_owner) {
            Some(fault) => r matches Err(e) && e.is_error(fault.0, fault.1, None),
            None => r matches Ok(order) && {
                &&& order.recipient == data.user_id
                &&& order.reconcile@ == seq![data.channel_id]
                &&& order.end_session == (data.user_id != MUSIC_BOT_ID)
                &&& if data.user_id == MUSIC_BOT_ID {
                    &&& order.message.data is MusicStop
                    &&& order.message.is_message("music.command"@, order.message.data)
                    &&& order.message.data->MusicStop_0.command@ == "stop"@
                    &&& order.message.data->MusicStop_0.voice_channel_id == data.channel_id
                    &&& order.message.data->MusicStop_0.reason@ == "disconnected"@
                } else {
                    order.message.is_message(
                        "voice.disconnected"@,
                        Payload::VoiceDisconnected(
                            VoiceDisconnected { channel_id: data.channel_id, by: actor_id },
                        ),
                    )
                }
            },
        },
{
    if !is_voice_channel(dest) {
        return Err(OutboundEnvelope::error("not_found", "voice channel not found", None));
    }
    let is_bot: bool = data.user_id == MUSIC_BOT_ID;
    if is_bot && !actor_is_member {
        return Err(OutboundEnvelope::error("forbidden", "join this community first", None));
    }
    if !is_bot && !actor_is_owner {
        return Err(
            OutboundEnvelope::error(
                "forbidden",
                "only the community owner can disconnect members",
                None,
            ),
        );
    }
    if !registry.is_participant(data.channel_id, data.user_id) {
        return Err(
            OutboundEnvelope::error(
                "validation_error",
                "that member is not in this voice channel",
                None,
            ),
        );
    }
    let message: OutboundEnvelope = if is_bot {
        OutboundEnvelope::new(
            "music.command",
            Payload::MusicStop(
                MusicStopEvent {
                    command: "stop".to_string(),
                    voice_channel_id: data.channel_id,
                    reason: "disconnected".to_string(),
                },
            ),
        )
    } else {
        OutboundEnvelope::new(
            "voice.disconnected",
            Payload::VoiceDisconnected(
                VoiceDisconnected { channel_id: data.channel_id, by: actor_id },
            ),
        )
    };
    let reconcile: Vec<ChannelId> = vec![data.channel_id];
    assert(reconcile@ =~= seq![data.channel_id]);
    Ok(Order { recipient: data.user_id, message, end_session: !is_bot, reconcile })
}

/// A member is moved if and only if the destination is a voice channel, the
/// owner of the community asks, and the member is the owner, or is of the
/// community or the music bot, and is online and in a voice channel.
pub proof fn law_move_allowed(
    m: RegistryModel,
    actor_id: Uuid,
    data: VoiceMoveMember,
    dest: Option<&Channel>,
    actor_is_owner: bool,
    target_is_member: bool,
    target_online: bool,
)
    requires
        m.valid(),
    ensures
        move_fault(m, actor_id, data, dest, actor_is_owner, target_is_member, target_online) is None <==> {
            &&& dest is Some && dest->0.kind@ == "voice"@
            &&& actor_is_owner
            &&& data.user_id == actor_id || {
                &&& target_is_member || data.user_id == 1
                &&& target_online
                &&& exists|c: Uuid| m.rooms.contains_key(c) && #[trigger] m.rooms[c].participants.contains_key(
                    data.user_id,
                )
            }
        },
{
    let user = data.user_id;
    if exists|c: Uuid| m.rooms.contains_key(c) && #[trigger] m.rooms[c].participants.contains_key(user) {
        let c = choose|c: Uuid| m.rooms.contains_key(c) && #[trigger] m.rooms[c].participants.contains_key(
            user,
        );
        law_channel_of_finds(m, user, c);
    }
    law_channel_of_finds(m, user, 0);
    if m.channel_of(user) is Some {
        let c = m.channel_of(user)->0;
        assert(m.rooms[c].participants.contains_key(user));
    }
}

/// Why a move is refused: there is no such voice channel; or who asks does not
/// own the community; or the member is not of it; or is not in a voice channel.
/// The first that holds is told.
pub proof fn law_move_refused(
    m: RegistryModel,
    actor_id: Uuid,
    data: VoiceMoveMember,
    dest: Option<&Channel>,
    actor_is_owner: bool,
    target_is_member: bool,
    target_online: bool,
)
    ensures
        ({
            let fault = move_fault(m, actor_id, data, dest, actor_is_owner, target_is_member, target_online);
            let voice = dest is Some && dest->0.kind@ == "voice"@;
            let stranger = data.user_id != 1 && !target_is_member;
            &&& !voice ==> fault == Some(("not_found"@, "voice channel not found"@))
            &&& voice && !actor_is_owner ==> fault == Some(
                ("forbidden"@, "only the community owner can move members"@),
            )
            &&& voice && actor_is_owner && data.user_id != actor_id && stranger ==> fault == Some(
                ("validation_error"@, "that member is not in this community"@),
            )
            &&& voice && actor_is_owner && data.user_id != actor_id && !stranger && fault is Some ==> fault
                == Some(("validation_error"@, "that member is not in a voice channel"@))
        }),
{
}

/// A member is put out if and only if the channel is a voice channel that the
/// member is in, and the owner of the community asks, or, where the member is
/// the music bot, anyone of the community.
pub proof fn law_disconnect_allowed(
    m: RegistryModel,
    data: VoiceDisconnectMember,
    dest: Option<&Channel>,
    actor_is_member: bool,
    actor_is_owner: bool,
)
    ensures
        disconnect_fault(m, data, dest, actor_is_member, actor_is_owner) is None <==> {
            &&& dest is Some && dest->0.kind@ == "voice"@
            &&& data.user_id == 1 ==> actor_is_member
            &&& data.user_id != 1 ==> actor_is_owner
            &&& m.rooms.contains_key(data.channel_id)
            &&& m.rooms[data.channel_id].participants.contains_key(data.user_id)
        },
{
}

/// Why it is refused to put a member out: there is no such voice channel; or
/// who asks may not; or the member is not in it. The first that holds is told.
pub proof fn law_disconnect_refused(
    m: RegistryModel,
    data: VoiceDisconnectMember,
    dest: Option<&Channel>,
    actor_is_member: bool,
    actor_is_owner: bool,
)
    ensures
        ({
            let fault = disconnect_fault(m, data, dest, actor_is_member, actor_is_owner);
            let voice = dest is Some && dest->0.kind@ == "voice"@;
            let bot = data.user_id == 1;
            &&& !voice ==> fault == Some(("not_found"@, "voice channel not found"@))
            &&& voice && bot && !actor_is_member ==> fault == Some(
                ("forbidden"@, "join this community first"@),
            )
            &&& voice && !bot && !actor_is_owner ==> fault == Some(
                ("forbidden"@, "only the community owner can disconnect members"@),
            )
            &&& voice && (bot && actor_is_member || !bot && actor_is_owner) && fault is Some ==> fault == Some(
                ("validation_error"@, "that member is not in this voice channel"@),
            )
        }),
{
}

/// A member who is moved is told where to and by whom; nobody's session is
/// ended, and the channel that the member is in and the one to move to are
/// confirmed. To move oneself confirms nothing.
pub proof fn law_move_ordered(
    registry: &VoiceRegistry,
    actor_id: UserId,
    data: &VoiceMoveMember,
    dest: Option<&Channel>,
    actor_is_owner: bool,
    target_is_member: bool,
    target_online: bool,
    r: Result<Order, OutboundEnvelope>,
)
    requires
        registry.wf(),
        call_ensures(
            on_move_member,
            (registry, actor_id, data, dest, actor_is_owner, target_is_member, target_online),
            r,
        ),
    ensures
        ({
            let m = registry@;
            let voice = dest is Some && dest->0.kind@ == "voice"@;
            let o = r->Ok_0;
            &&& r is Ok <==> voice && actor_is_owner && (data.user_id == actor_id || ((target_is_member
                || data.user_id == 1) && target_online && exists|c: Uuid|
                m.rooms.contains_key(c) && #[trigger] m.rooms[c].participants.contains_key(data.user_id)))
            &&& !voice ==> plain_error(r->Err_0, "not_found"@, "voice channel not found"@)
            &&& voice && !actor_is_owner ==> plain_error(
                r->Err_0,
                "forbidden"@,
                "only the community owner can move members"@,
            )
            &&& r is Ok ==> {
                &&& o.recipient == data.user_id
                &&& o.message.v == 1 && o.message.op@ == "voice.moved"@ && o.message.data is VoiceMoved
                &&& o.message.data->VoiceMoved_0.channel_id == data.channel_id
                &&& o.message.data->VoiceMoved_0.moved_by == actor_id
                &&& !o.end_session
                &&& data.user_id == actor_id ==> o.reconcile@.len() == 0
                &&& data.user_id != actor_id ==> {
                    &&& o.reconcile@.len() == 2
                    &&& m.rooms.contains_key(o.reconcile@[0])
                    &&& m.rooms[o.reconcile@[0]].participants.contains_key(data.user_id)
                    &&& o.reconcile@[1] == data.channel_id
                }
            }
        }),
{
    law_move_allowed(
        registry@,
        actor_id,
        *data,
        dest,
        actor_is_owner,
        target_is_member,
        target_online,
    );
    law_move_refused(
        registry@,
        actor_id,
        *data,
        dest,
        actor_is_owner,
        target_is_member,
        target_online,
    );
    law_channel_of_finds(registry@, data.user_id, 0);
}

/// A member who is put out is told from where and by whom, LiveKit is asked to
/// end its session, and the channel is confirmed. The music bot is told to stop
/// instead, and its session is not ended.
pub proof fn law_disconnect_ordered(
    registry: &VoiceRegistry,
    actor_id: UserId,
    data: &VoiceDisconnectMember,
    dest: Option<&Channel>,
    actor_is_member: bool,
    actor_is_owner: bool,
    r: Result<Order, OutboundEnvelope>,
)
    requires
        call_ensures(
            on_disconnect_member,
            (registry, actor_id, data, dest, actor_is_member, actor_is_owner),
            r,
        ),
    ensures
        ({
            let m = registry@;
            let voice = dest is Some && dest->0.kind@ == "voice"@;
            let bot = data.user_id == 1;
            let here = m.rooms.contains_key(data.channel_id)
                && m.rooms[data.channel_id].participants.contains_key(data.user_id);
            let o = r->Ok_0;
            &&& r is Ok <==> voice && here && (bot ==> actor_is_member) && (!bot ==> actor_is_owner)
            &&& !voice ==> plain_error(r->Err_0, "not_found"@, "voice channel not found"@)
            &&& voice && !bot && !actor_is_owner ==> plain_error(
                r->Err_0,
                "forbidden"@,
                "only the community owner can disconnect members"@,
            )
            &&& r is Ok ==> {
                &&& o.recipient == data.user_id
                &&& o.reconcile@ == seq![data.channel_id]
                &&& o.end_session <==> !bot
                &&& o.message.v == 1
                &&& !bot ==> {
                    &&& o.message.op@ == "voice.disconnected"@ && o.message.data is VoiceDisconnected
                    &&& o.message.data->VoiceDisconnected_0.channel_id == data.channel_id
                    &&& o.message.data->VoiceDisconnected_0.by == actor_id
                }
                &&& bot ==> {
                    &&& o.message.op@ == "music.command"@ && o.message.data is MusicStop
                    &&& o.message.data->MusicStop_0.command@ == "stop"@
                    &&& o.message.data->MusicStop_0.voice_channel_id == data.channel_id
                    &&& o.message.data->MusicStop_0.reason@ == "disconnected"@
                }
            }
        }),
{
    law_disconnect_allowed(registry@, *data, dest, actor_is_member, actor_is_owner);
    law_disconnect_refused(registry@, *data, dest, actor_is_member, actor_is_owner);
}

/// What an order is about is confirmed three seconds later.
pub proof fn law_order_delay()
    ensures
        ORDER_RECONCILE_MS == 3 * 1000,
{
}

} // verus!
