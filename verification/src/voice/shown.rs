//! What the rows of a room are in the model, and what clients see of them,
//! field by field.

use vstd::prelude::*;

use crate::ident::Uuid;
use crate::listing::{sorted_ids, sorted_texts};
use crate::protocol::{VoiceParticipantDto, VoiceRoomDelta, VoiceRoomDto, VoiceTrackDto};
use crate::text::lex_lt;
use crate::voice::model::ChangeModel;
use crate::voice::reconcile::live_list;
use crate::voice::registry::change_list;
use crate::voice::room::VoiceRoom;
use crate::voice::rows::{law_ids_listed, law_texts_listed};
use crate::voice::types::{
    ChangeReason, ReconciledParticipant, RoomChange, TrackSource,
    VoiceParticipant, VoiceTrack,
};

verus! {

broadcast use vstd::std_specs::hash::group_hash_axioms;

/// Do two optional strings say the same?
pub open spec fn same_optional(a: Option<String>, b: Option<Seq<char>>) -> bool {
    match (a, b) {
        (Some(s), Some(t)) => s@ == t,
        (None, None) => true,
        _ => false,
    }
}

/// Does a participant as clients see it say what its row says?
pub open spec fn shows_participant(dto: VoiceParticipantDto, row: VoiceParticipant) -> bool {
    &&& dto.user_id == row.user_id
    &&& dto.participant_sid is Some <==> row.sid is Some
    &&& dto.participant_sid is Some ==> dto.participant_sid->0@ == row.sid->0@
    &&& dto.muted == row.muted
    &&& dto.deafened == row.deafened
    &&& dto.is_bot == row.is_bot
    &&& dto.provisional <==> row.sid is None
    &&& dto.joined_at == row.joined_at
}

/// Does a track as clients see it say what its row says?
pub open spec fn shows_track(dto: VoiceTrackDto, row: VoiceTrack) -> bool {
    &&& dto.track_sid@ == row.sid@
    &&& dto.owner == row.owner
    &&& dto.owner_sid is Some <==> row.owner_sid is Some
    &&& dto.owner_sid is Some ==> dto.owner_sid->0@ == row.owner_sid->0@
    &&& dto.muted == row.muted
    &&& dto.source@ == match row.source {
        TrackSource::Microphone => "microphone"@,
        TrackSource::Camera => "camera"@,
        TrackSource::ScreenShare => "screen_share"@,
        TrackSource::ScreenShareAudio => "screen_share_audio"@,
        TrackSource::Music => "music"@,
    }
}

/// A row of the model says of a participant what its row says.
pub proof fn law_participant_modelled(row: VoiceParticipant)
    ensures
        row@.user_id == row.user_id,
        same_optional(row.sid, row@.sid),
        row@.joined_at == row.joined_at,
        row@.provisional_since == row.provisional_since,
        row@.muted == row.muted,
        row@.deafened == row.deafened,
        row@.is_bot == row.is_bot,
        row@.is_provisional() <==> row.sid is None,
{
}

/// A row of the model says of a track what its row says.
pub proof fn law_track_modelled(row: VoiceTrack)
    ensures
        row@.sid == row.sid@,
        row@.owner == row.owner,
        same_optional(row.owner_sid, row@.owner_sid),
        row@.source == row.source,
        row@.muted == row.muted,
{
}

/// A room of the model has the version, the rows and the tracks of the room.
pub proof fn law_room_modelled(room: VoiceRoom, u: Uuid)
    ensures
        room@.version == room.version,
        room@.participants.contains_key(u) <==> room.participants@.contains_key(u),
        room@.participants.contains_key(u) ==> room@.participants[u] == room.participants@[u]@,
        room@.tracks == room.tracks@,
        room@.reconciled_at == room.reconciled_at,
{
}

/// A change of the model has the versions, the rows and the reason of the
/// change.
pub proof fn law_change_modelled(change: RoomChange, i: int)
    ensures
        change@.channel_id == change.channel_id,
        change@.version_before == change.version_before,
        change@.version_after == change.version_after,
        change@.participants_added.len() == change.participants_added@.len(),
        0 <= i < change.participants_added@.len() ==> change@.participants_added[i]
            == change.participants_added@[i]@,
        change@.participants_updated.len() == change.participants_updated@.len(),
        0 <= i < change.participants_updated@.len() ==> change@.participants_updated[i]
            == change.participants_updated@[i]@,
        change@.participants_removed == change.participants_removed@,
        change@.tracks_added.len() == change.tracks_added@.len(),
        0 <= i < change.tracks_added@.len() ==> change@.tracks_added[i] == change.tracks_added@[i]@,
        change@.tracks_removed.len() == change.tracks_removed@.len(),
        0 <= i < change.tracks_removed@.len() ==> change@.tracks_removed[i] == change.tracks_removed@[i]@,
        change@.reason == change.reason,
        change@.room_closed == change.room_closed,
        change@.is_empty() <==> change.version_before == change.version_after,
{
}

/// A listed participant of the model has the user, the session and the tracks
/// that are listed; a list has them all, in its order.
pub proof fn law_list_modelled(list: Seq<ReconciledParticipant>, i: int, k: int)
    requires
        0 <= i < list.len(),
        0 <= k < list[i].tracks@.len(),
    ensures
        live_list(list).len() == list.len(),
        live_list(list)[i].user_id == list[i].user_id,
        live_list(list)[i].sid == list[i].sid@,
        live_list(list)[i].tracks.len() == list[i].tracks@.len(),
        live_list(list)[i].tracks[k].sid == list[i].tracks@[k].0@,
        live_list(list)[i].tracks[k].source == list[i].tracks@[k].1,
        live_list(list)[i].tracks[k].muted == list[i].tracks@[k].2,
{
}

/// A list of changes of the model has them all, in order.
pub proof fn law_changes_modelled(changes: Seq<RoomChange>, i: int)
    ensures
        change_list(changes).len() == changes.len(),
        0 <= i < changes.len() ==> change_list(changes)[i] == changes[i]@,
{
}

/// What clients see of a participant is what its row says, field by field.
pub proof fn law_participant_shown(row: VoiceParticipant, dto: VoiceParticipantDto)
    requires
        dto@ == row@.shown(),
    ensures
        dto.user_id == row.user_id,
        dto.participant_sid is Some <==> row.sid is Some,
        dto.participant_sid is Some ==> dto.participant_sid->0@ == row.sid->0@,
        dto.muted == row.muted,
        dto.deafened == row.deafened,
        dto.is_bot == row.is_bot,
        dto.provisional <==> row.sid is None,
        dto.joined_at == row.joined_at,
{
}

/// What clients see of a track is what its row says, field by field.
pub proof fn law_track_shown(row: VoiceTrack, dto: VoiceTrackDto)
    requires
        dto@ == row@.shown(),
    ensures
        dto.track_sid@ == row.sid@,
        dto.owner == row.owner,
        dto.owner_sid is Some <==> row.owner_sid is Some,
        dto.owner_sid is Some ==> dto.owner_sid->0@ == row.owner_sid->0@,
        dto.muted == row.muted,
        dto.source@ == row.source.wire(),
{
}

/// What clients see of a room: the channel, its version, every participant once
/// in the order of their identifiers, and every track once in that of their
/// SIDs, each as its row says.
pub proof fn law_room_shown(room: VoiceRoom, channel: Uuid, dto: VoiceRoomDto, u: Uuid, s: Seq<char>)
    requires
        room@.valid(),
        dto@ == room@.shown(channel),
    ensures
        dto.channel_id == channel,
        dto.version == room.version,
        forall|i: int, j: int|
            0 <= i < j < dto.participants@.len() ==> (#[trigger] dto.participants@[i]).user_id < (
            #[trigger] dto.participants@[j]).user_id,
        forall|i: int, j: int|
            0 <= i < j < dto.tracks@.len() ==> lex_lt(
                (#[trigger] dto.tracks@[i]).track_sid@,
                (#[trigger] dto.tracks@[j]).track_sid@,
            ),
        room.participants@.contains_key(u) <==> exists|i: int|
            0 <= i < dto.participants@.len() && (#[trigger] dto.participants@[i]).user_id == u,
        forall|i: int|
            0 <= i < dto.participants@.len() && (#[trigger] dto.participants@[i]).user_id == u
                ==> shows_participant(dto.participants@[i], room.participants@[u]),
        room.tracks@.contains_key(s) <==> exists|i: int|
            0 <= i < dto.tracks@.len() && (#[trigger] dto.tracks@[i]).track_sid@ == s,
        forall|i: int|
            0 <= i < dto.tracks@.len() && (#[trigger] dto.tracks@[i]).track_sid@ == s ==> {
                let t = room.tracks@[s];
                &&& dto.tracks@[i].owner == t.owner
                &&& same_optional(dto.tracks@[i].owner_sid, t.owner_sid)
                &&& dto.tracks@[i].source@ == t.source.wire()
                &&& dto.tracks@[i].muted == t.muted
            },
{
    let ids = sorted_ids(room@.participants.dom());
    let sids = sorted_texts(room@.tracks.dom());
    let shown = room@.shown(channel);
    law_ids_listed(room@.participants.dom(), u);
    law_texts_listed(room@.tracks.dom(), s);
    assert(dto@.participants.len() == dto.participants@.len());
    assert(dto@.tracks.len() == dto.tracks@.len());
    assert forall|i: int| 0 <= i < dto.participants@.len() implies {
        &&& room.participants@.contains_key(ids[i])
        &&& (#[trigger] dto.participants@[i])@ == room.participants@[ids[i]]@.shown()
        &&& dto.participants@[i].user_id == ids[i]
    } by {
        assert(dto.participants@[i]@ == shown.participants[i]);
        assert(ids.contains(ids[i]));
        law_ids_listed(room@.participants.dom(), ids[i]);
        assert(room@.participants.contains_key(ids[i]));
        assert(room@.participants[ids[i]].user_id == ids[i]);
    }
    assert forall|i: int| 0 <= i < dto.tracks@.len() implies {
        &&& (#[trigger] dto.tracks@[i])@ == room@.tracks[sids[i]].shown()
        &&& dto.tracks@[i].track_sid@ == sids[i]
        &&& room@.tracks.contains_key(sids[i])
    } by {
        assert(dto.tracks@[i]@ == shown.tracks[i]);
        assert(sids.contains(sids[i]));
        law_texts_listed(room@.tracks.dom(), sids[i]);
        assert(room@.tracks.contains_key(sids[i]));
        assert(room@.tracks[sids[i]].sid == sids[i]);
    }
    if room.participants@.contains_key(u) {
        assert(room@.participants.contains_key(u));
        let i = choose|i: int| 0 <= i < ids.len() && ids[i] == u;
        assert(dto.participants@[i].user_id == u);
    }
    if room.tracks@.contains_key(s) {
        let i = choose|i: int| 0 <= i < sids.len() && sids[i] == s;
        assert(dto.tracks@[i].track_sid@ == s);
    }
}

/// What clients see of a change: the channel, the versions that it leads from
/// and to, each row that it adds or updates as the row says, who and what it
/// removes, and the name of the reason.
pub proof fn law_delta_shown(change: RoomChange, delta: VoiceRoomDelta, i: int)
    requires
        delta@ == change@.shown(),
    ensures
        delta.channel_id == change.channel_id,
        delta.previous_version == change.version_before,
        delta.version == change.version_after,
        delta.participants_added@.len() == change.participants_added@.len(),
        0 <= i < delta.participants_added@.len() ==> shows_participant(
            delta.participants_added@[i],
            change.participants_added@[i],
        ),
        delta.participants_updated@.len() == change.participants_updated@.len(),
        0 <= i < delta.participants_updated@.len() ==> shows_participant(
            delta.participants_updated@[i],
            change.participants_updated@[i],
        ),
        delta.participants_removed@ == change.participants_removed@,
        delta.tracks_added@.len() == change.tracks_added@.len(),
        0 <= i < delta.tracks_added@.len() ==> shows_track(
            delta.tracks_added@[i],
            change.tracks_added@[i],
        ),
        delta.tracks_removed@.len() == change.tracks_removed@.len(),
        0 <= i < delta.tracks_removed@.len() ==> delta.tracks_removed@[i]@ == change.tracks_removed@[i]@,
        delta.reason@ == change.reason.wire(),
{
    let shown = change@.shown();
    assert(delta@.participants_added == shown.participants_added);
    assert(delta@.participants_added.len() == delta.participants_added@.len());
    assert(delta@.participants_updated.len() == delta.participants_updated@.len());
    assert(delta@.tracks_added.len() == delta.tracks_added@.len());
    assert(delta@.tracks_removed.len() == delta.tracks_removed@.len());
    if 0 <= i < delta.participants_added@.len() {
        assert(delta.participants_added@[i]@ == shown.participants_added[i]);
    }
    if 0 <= i < delta.participants_updated@.len() {
        assert(delta.participants_updated@[i]@ == shown.participants_updated[i]);
    }
    if 0 <= i < delta.tracks_added@.len() {
        assert(delta.tracks_added@[i]@ == shown.tracks_added[i]);
    }
    if 0 <= i < delta.tracks_removed@.len() {
        assert(delta@.tracks_removed[i] == shown.tracks_removed[i]);
    }
}

/// Each source has its name in the protocol, and is read from that name in any
/// case; nothing is read as the music source.
pub proof fn law_source_names(value: Seq<char>)
    ensures
        TrackSource::Microphone.wire() == "microphone"@,
        TrackSource::Camera.wire() == "camera"@,
        TrackSource::ScreenShare.wire() == "screen_share"@,
        TrackSource::ScreenShareAudio.wire() == "screen_share_audio"@,
        TrackSource::Music.wire() == "music"@,
        TrackSource::named(value) == Some(TrackSource::Microphone) <==> crate::text::ascii_lower(value)
            == "microphone"@,
        TrackSource::named(value) == Some(TrackSource::Camera) <==> crate::text::ascii_lower(value)
            == "camera"@,
        TrackSource::named(value) == Some(TrackSource::ScreenShare) <==> crate::text::ascii_lower(value)
            == "screen_share"@,
        TrackSource::named(value) == Some(TrackSource::ScreenShareAudio)
            <==> crate::text::ascii_lower(value) == "screen_share_audio"@,
        TrackSource::named(value) != Some(TrackSource::Music),
{
    reveal_strlit("microphone");
    reveal_strlit("camera");
    reveal_strlit("screen_share");
    reveal_strlit("screen_share_audio");
    assert("microphone"@.len() == 10);
    assert("camera"@.len() == 6);
    assert("screen_share"@.len() == 12);
    assert("screen_share_audio"@.len() == 18);
}

/// Each reason has its name in the protocol.
pub proof fn law_reason_names(reason: ChangeReason)
    ensures
        reason.wire() == match reason {
            ChangeReason::WebhookParticipantJoined => "webhook.participant_joined"@,
            ChangeReason::WebhookParticipantLeft => "webhook.participant_left"@,
            ChangeReason::WebhookTrackPublished => "webhook.track_published"@,
            ChangeReason::WebhookTrackUnpublished => "webhook.track_unpublished"@,
            ChangeReason::WebhookTrackMuted => "webhook.track_muted"@,
            ChangeReason::ReconcileAdded => "reconcile.added"@,
            ChangeReason::ReconcileRemoved => "reconcile.removed"@,
            ChangeReason::ReconcileTrackSync => "reconcile.track_sync"@,
            ChangeReason::WsPresenceHint => "ws.presence_hint"@,
            ChangeReason::WsStateUpdate => "ws.state_update"@,
            ChangeReason::WsTrackHint => "ws.track_hint"@,
            ChangeReason::AdminDisconnectMember => "admin.disconnect_member"@,
            ChangeReason::ChannelDeleted => "channel.deleted"@,
            ChangeReason::ProvisionalExpired => "provisional.expired"@,
        },
{
}

/// A report of nothing says nothing but its channel, its version and its
/// reason.
pub proof fn law_quiet_change(channel: Uuid, version: nat, reason: ChangeReason)
    ensures
        ({
            let d = ChangeModel::quiet(channel, version, reason);
            &&& d.channel_id == channel
            &&& d.version_before == version
            &&& d.version_after == version
            &&& d.reason == reason
            &&& d.participants_added.len() == 0
            &&& d.participants_updated.len() == 0
            &&& d.participants_removed.len() == 0
            &&& d.tracks_added.len() == 0
            &&& d.tracks_removed.len() == 0
            &&& !d.room_closed
        }),
{
}

} // verus!
