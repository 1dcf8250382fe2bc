//! What the operations of the registry do for those who call them.

use std::collections::HashSet;

use vstd::prelude::*;

use crate::clock::Reading;
use crate::ident::{uuid_text, Uuid};
use crate::protocol::{
    OutboundEnvelope, StreamDto, VoiceParticipantDto, VoiceRoomDelta, VoiceRoomDto, VoiceRosterEntry,
    VoiceTrackDto,
};
use crate::text::optional_text;
use crate::voice::laws::law_seen_event_known;
use crate::voice::mirror::{
    last_track, law_listed_are_in, law_listed_tracks_are_in, law_reconcile_counts, law_unlisted_go,
    law_unlisted_tracks_go, lists_track, names,
};
use crate::voice::model::RegistryModel;
use crate::voice::projection::{publish_room_change, roster_message};
use crate::voice::reconcile::live_list;
use crate::voice::registry::{change_list, VoiceRegistry};
use crate::voice::room::VoiceRoom;
use crate::voice::rows::{
    ids_rise, law_capacity_counts, law_close, law_evict, law_expire, law_hint_join, law_hint_leave,
    law_hint_publish, law_hint_unpublish, law_ids_listed, law_join, law_leave, law_mute_track,
    law_publish, law_set_audio, law_set_music, law_unpublish, overdue,
};
use crate::voice::shown::{
    law_change_modelled, law_delta_shown, law_list_modelled, law_participant_modelled,
    law_participant_shown, law_room_shown, law_track_modelled, law_track_shown,
};
use crate::voice::steps::{
    empties, holds_instead, law_channel_found, law_claim_steps, law_closing_steps,
    law_deleted_channel_has_no_room, law_event_seen, law_exclusive_join_sweep, law_expiry_sweep,
    law_music_step, law_opening_steps, law_prune_sweep, law_room_opened, law_track_steps, reports,
};
use crate::voice::types::{
    ChangeReason, ChannelId, HintError, ParticipantSid, ReconciledParticipant, RoomChange, TrackSid,
    TrackSource, UserId, VoiceParticipant, VoiceTrack,
};
use crate::voice::validity::lemma_opened_valid;
use crate::ws::presence::law_rooms_listed;

verus! {

/// Who LiveKit says joined a channel is in it, under the session that it names,
/// and the report has the row, unless that session was known. Nobody else's row
/// and no other room is touched.
pub proof fn law_webhook_join(
    registry: &mut VoiceRegistry,
    channel_id: ChannelId,
    user_id: UserId,
    sid: ParticipantSid,
    r: RoomChange,
)
    requires
        old(registry).wf(),
        call_ensures(
            VoiceRegistry::webhook_participant_joined,
            (registry, channel_id, user_id, sid),
            r,
        ),
    ensures
        ({
            let before = old(registry)@.opened(channel_id);
            let after = final(registry)@.rooms[channel_id];
            let row = after.participants[user_id];
            let there = before.participants.contains_key(user_id);
            let known = there && before.participants[user_id].sid == Some(sid@);
            &&& holds_instead(old(registry)@, final(registry)@, channel_id, after)
            &&& after.participants == before.participants.insert(user_id, row)
            &&& after.tracks == before.tracks
            &&& row.user_id == user_id
            &&& row.sid == Some(sid@)
            &&& r.channel_id == channel_id
            &&& r.version_before == before.version
            &&& r.version_after == after.version
            &&& r.version_after == r.version_before <==> known
            &&& !there ==> r.participants_added@.len() == 1 && r.participants_added@[0]@ == row
            &&& there && !known ==> r.participants_updated@.len() == 1 && r.participants_updated@[0]@ == row
        }),
{
    let m = old(registry)@;
    let now = choose|now: Reading|
        now.is_plausible() && (final(registry)@, r@) == #[trigger] m.joined(channel_id, user_id, sid@, now);
    lemma_opened_valid(m, channel_id);
    law_opening_steps(
        m,
        channel_id,
        user_id,
        sid@,
        None,
        TrackSource::Music,
        false,
        now,
    );
    law_join(m.opened(channel_id), channel_id, user_id, sid@, now);
    law_change_modelled(r, 0);
}

/// Who joins a channel exclusively is in it, under the session that LiveKit
/// names, and in no other; nobody else comes or goes, and no report is empty.
pub proof fn law_webhook_join_exclusive(
    registry: &mut VoiceRegistry,
    channel_id: ChannelId,
    user_id: UserId,
    sid: ParticipantSid,
    r: Vec<RoomChange>,
    c: Uuid,
    u: Uuid,
)
    requires
        old(registry).wf(),
        call_ensures(
            VoiceRegistry::webhook_participant_joined_exclusive,
            (registry, channel_id, user_id, sid),
            r,
        ),
        c != channel_id,
    ensures
        ({
            let (m, after) = (old(registry)@, final(registry)@);
            let was_in = m.rooms.contains_key(c) && m.rooms[c].participants.contains_key(user_id);
            let before = m.opened(channel_id);
            let row = after.rooms[channel_id].participants[user_id];
            &&& after.rooms.contains_key(channel_id)
            &&& after.rooms[channel_id].participants == before.participants.insert(user_id, row)
            &&& row.sid == Some(sid@)
            &&& !(after.rooms.contains_key(c) && after.rooms[c].participants.contains_key(user_id))
            &&& !was_in ==> after.rooms.contains_key(c) == m.rooms.contains_key(c) && (
            after.rooms.contains_key(c) ==> after.rooms[c] == m.rooms[c])
            &&& was_in && u != user_id ==> (after.rooms.contains_key(c)
                && after.rooms[c].participants.contains_key(u) <==> m.rooms[c].participants.contains_key(u))
            &&& was_in ==> exists|i: int| 0 <= i < r@.len() && (#[trigger] r@[i]).channel_id == c
                && r@[i].participants_removed@ == seq![user_id]
        }),
{
    let m = old(registry)@;
    let now = choose|now: Reading|
        now.is_plausible() && (final(registry)@, change_list(r@)) == #[trigger] m.joined_exclusive(
            channel_id,
            user_id,
            sid@,
            now,
        );
    let (after, ds) = m.joined_exclusive(channel_id, user_id, sid@, now);
    lemma_opened_valid(m, channel_id);
    law_exclusive_join_sweep(m, channel_id, user_id, sid@, now, c);
    law_join(m.opened(channel_id), channel_id, user_id, sid@, now);
    let own = m.opened(channel_id).joined(channel_id, user_id, sid@, now);
    let others = if own.1.version_before == own.1.version_after {
        ds
    } else {
        ds.drop_last()
    };
    if m.rooms.contains_key(c) && m.rooms[c].participants.contains_key(user_id) {
        let o = m.rooms[c].evicted(c, user_id);
        law_evict(m.rooms[c], c, user_id, Seq::empty());
        let i = choose|i: int| 0 <= i < others.len() && reports(#[trigger] others[i], o);
        assert(others[i] == ds[i]);
        assert(ds[i] == r@[i]@);
        assert(r@[i].participants_removed@ == seq![user_id]);
        assert(m.rooms[c].participants.contains_key(u) && u != user_id ==> o.0.participants.contains_key(u));
    }
}

/// The end of the session that a row has takes its user out, and nobody else;
/// the end of any other session does nothing.
pub proof fn law_webhook_leave(
    registry: &mut VoiceRegistry,
    channel_id: ChannelId,
    user_id: UserId,
    sid: ParticipantSid,
    r: RoomChange,
    s: Seq<char>,
)
    requires
        old(registry).wf(),
        call_ensures(
            VoiceRegistry::webhook_participant_left,
            (registry, channel_id, user_id, sid),
            r,
        ),
    ensures
        ({
            let (m, after) = (old(registry)@, final(registry)@);
            let room = m.rooms[channel_id];
            let current = m.rooms.contains_key(channel_id) && room.participants.contains_key(user_id)
                && room.participants[user_id].sid == Some(sid@);
            &&& !current ==> after.rooms == m.rooms && r.version_before == r.version_after
            &&& current ==> {
                &&& r.channel_id == channel_id
                &&& r.participants_removed@ == seq![user_id]
                &&& r.version_after == r.version_before + 1
                &&& r.room_closed <==> !after.rooms.contains_key(channel_id)
                &&& after.rooms.contains_key(channel_id) ==> {
                    &&& after.rooms[channel_id].participants == room.participants.remove(user_id)
                    &&& after.rooms[channel_id].tracks.contains_key(s) <==> room.tracks.contains_key(s)
                        && room.tracks[s].owner != user_id
                }
                &&& !after.rooms.contains_key(channel_id) ==> after.retired[channel_id] == r.version_after
            }
        }),
{
    let m = old(registry)@;
    law_closing_steps(m, channel_id, user_id, sid@, Seq::empty(), arbitrary());
    if m.rooms.contains_key(channel_id) {
        law_leave(m.rooms[channel_id], channel_id, user_id, sid@, s);
        if !(m.rooms[channel_id].participants.contains_key(user_id)
            && m.rooms[channel_id].participants[user_id].sid == Some(sid@)) {
            assert(m.rooms.insert(channel_id, m.rooms[channel_id]) =~= m.rooms);
        }
    }
    law_change_modelled(r, 0);
}

/// A track that LiveKit says was published, and that the room lacks, is in the
/// room, with the owner and the source that LiveKit names, not muted, and is
/// reported; its owner is in the room. One that the room has is left alone.
pub proof fn law_webhook_publish(
    registry: &mut VoiceRegistry,
    channel_id: ChannelId,
    user_id: UserId,
    participant_sid: Option<ParticipantSid>,
    track_sid: TrackSid,
    source: TrackSource,
    r: RoomChange,
)
    requires
        old(registry).wf(),
        call_ensures(
            VoiceRegistry::webhook_track_published,
            (registry, channel_id, user_id, participant_sid, track_sid, source),
            r,
        ),
    ensures
        ({
            let before = old(registry)@.opened(channel_id);
            let after = final(registry)@.rooms[channel_id];
            let t = after.tracks[track_sid@];
            &&& holds_instead(old(registry)@, final(registry)@, channel_id, after)
            &&& before.tracks.contains_key(track_sid@) ==> after == before && r.version_before
                == r.version_after
            &&& !before.tracks.contains_key(track_sid@) ==> {
                &&& after.tracks == before.tracks.insert(track_sid@, t)
                &&& t.sid == track_sid@
                &&& t.owner == user_id
                &&& t.source == source
                &&& !t.muted
                &&& participant_sid is Some ==> t.owner_sid == Some(participant_sid->0@)
                &&& after.participants.contains_key(user_id)
                &&& before.participants.contains_key(user_id) ==> after.participants == before.participants
                &&& r.channel_id == channel_id
                &&& r.version_before == before.version
                &&& r.version_after == after.version
                &&& r.version_before < r.version_after
                &&& r.tracks_added@.len() == 1
                &&& r.tracks_added@[0].sid@ == track_sid@
                &&& r.tracks_added@[0].owner == user_id
                &&& r.tracks_added@[0].source == source
                &&& !r.tracks_added@[0].muted
            }
        }),
{
    let m = old(registry)@;
    let session = optional_text(participant_sid);
    let now = choose|now: Reading|
        now.is_plausible() && (final(registry)@, r@) == #[trigger] m.published(
            channel_id,
            user_id,
            session,
            track_sid@,
            source,
            now,
        );
    lemma_opened_valid(m, channel_id);
    law_opening_steps(m, channel_id, user_id, track_sid@, session, source, false, now);
    law_publish(m.opened(channel_id), channel_id, user_id, session, track_sid@, source, now);
    law_change_modelled(r, 0);
    if r.tracks_added@.len() > 0 {
        law_track_modelled(r.tracks_added@[0]);
    }
}

/// A track that LiveKit says is gone is not in the room, and every other one
/// is.
pub proof fn law_webhook_unpublish(
    registry: &mut VoiceRegistry,
    channel_id: ChannelId,
    track_sid: &str,
    r: RoomChange,
)
    requires
        call_ensures(VoiceRegistry::webhook_track_unpublished, (registry, channel_id, track_sid), r),
    ensures
        ({
            let (m, after) = (old(registry)@, final(registry)@);
            let there = m.rooms.contains_key(channel_id) && m.rooms[channel_id].tracks.contains_key(
                track_sid@,
            );
            &&& m.rooms.contains_key(channel_id) ==> {
                &&& holds_instead(m, after, channel_id, after.rooms[channel_id])
                &&& after.rooms[channel_id].tracks == m.rooms[channel_id].tracks.remove(track_sid@)
                &&& after.rooms[channel_id].participants == m.rooms[channel_id].participants
            }
            &&& !m.rooms.contains_key(channel_id) ==> after == m
            &&& r.version_before != r.version_after <==> there
            &&& there ==> r.tracks_removed@.len() == 1 && r.tracks_removed@[0]@ == track_sid@
        }),
{
    let m = old(registry)@;
    law_track_steps(m, channel_id, track_sid@, false);
    if m.rooms.contains_key(channel_id) {
        law_unpublish(m.rooms[channel_id], channel_id, track_sid@);
    }
    law_change_modelled(r, 0);
}

/// A track of the room is muted, or not, as LiveKit says; nothing else of it
/// changes, nor anything else. Where that is news it is reported.
pub proof fn law_webhook_mute(
    registry: &mut VoiceRegistry,
    channel_id: ChannelId,
    track_sid: &str,
    muted: bool,
    r: RoomChange,
)
    requires
        old(registry).wf(),
        call_ensures(VoiceRegistry::webhook_track_muted, (registry, channel_id, track_sid, muted), r),
    ensures
        ({
            let (m, after) = (old(registry)@, final(registry)@);
            let there = m.rooms.contains_key(channel_id) && m.rooms[channel_id].tracks.contains_key(
                track_sid@,
            );
            let was = m.rooms[channel_id].tracks[track_sid@];
            let t = after.rooms[channel_id].tracks[track_sid@];
            &&& there ==> {
                &&& holds_instead(m, after, channel_id, after.rooms[channel_id])
                &&& after.rooms[channel_id].tracks == m.rooms[channel_id].tracks.insert(track_sid@, t)
                &&& after.rooms[channel_id].participants == m.rooms[channel_id].participants
                &&& t.muted == muted
                &&& t.owner == was.owner && t.owner_sid == was.owner_sid && t.source == was.source
                &&& r.version_before != r.version_after <==> was.muted != muted
                &&& was.muted != muted ==> r.tracks_added@.len() == 1 && r.tracks_added@[0].muted == muted
                    && r.tracks_added@[0].sid@ == track_sid@ && r.tracks_added@[0].source == was.source
            }
            &&& !there ==> after.rooms == m.rooms && r.version_before == r.version_after
        }),
{
    let m = old(registry)@;
    law_track_steps(m, channel_id, track_sid@, muted);
    if m.rooms.contains_key(channel_id) {
        law_mute_track(m.rooms[channel_id], channel_id, track_sid@, muted);
        if !m.rooms[channel_id].tracks.contains_key(track_sid@) {
            assert(m.rooms.insert(channel_id, final(registry)@.rooms[channel_id]) =~= m.rooms);
        }
    }
    law_change_modelled(r, 0);
    if r.tracks_added@.len() > 0 {
        law_track_modelled(r.tracks_added@[0]);
    }
}

/// After a reconciliation everyone whom LiveKit lists is in the room under the
/// listed session, and every listed track is there with the listed owner,
/// session, source and mute, but for music rows. What only this server knows of
/// who was there is kept.
pub proof fn law_room_reconciled(
    registry: &mut VoiceRegistry,
    channel_id: ChannelId,
    participants: Vec<ReconciledParticipant>,
    r: RoomChange,
    i: int,
    k: int,
)
    requires
        old(registry).wf(),
        call_ensures(VoiceRegistry::reconcile_room, (registry, channel_id, participants), r),
        0 <= i < participants@.len(),
        forall|j: int|
            i < j < participants@.len() ==> (#[trigger] participants@[j]).user_id
                != participants@[i].user_id,
    ensures
        ({
            let before = old(registry)@.opened(channel_id);
            let after = final(registry)@.rooms[channel_id];
            let p = participants@[i];
            let row = after.participants[p.user_id];
            let was = before.participants[p.user_id];
            &&& final(registry)@.rooms.contains_key(channel_id)
            &&& after.participants.contains_key(p.user_id)
            &&& row.user_id == p.user_id
            &&& row.sid == Some(p.sid@)
            &&& before.participants.contains_key(p.user_id) ==> row.muted == was.muted && row.deafened
                == was.deafened && row.joined_at == was.joined_at && row.is_bot == was.is_bot
            &&& !before.participants.contains_key(p.user_id) ==> !row.muted && !row.deafened && (row.is_bot
                <==> p.user_id == 1)
            &&& 0 <= k < p.tracks@.len() && last_track(live_list(participants@), i, k, p.tracks@[k].0@)
                && !(before.tracks.contains_key(p.tracks@[k].0@) && before.tracks[p.tracks@[k].0@].source
                == TrackSource::Music) ==> {
                let t = after.tracks[p.tracks@[k].0@];
                &&& after.tracks.contains_key(p.tracks@[k].0@)
                &&& t.owner == p.user_id
                &&& t.owner_sid == Some(p.sid@)
                &&& t.source == p.tracks@[k].1
                &&& t.muted == p.tracks@[k].2
            }
            &&& r.channel_id == channel_id
            &&& r.version_before == before.version
            &&& r.version_after == after.version
            &&& !r.room_closed
        }),
{
    let m = old(registry)@;
    let live = live_list(participants@);
    let now = choose|now: Reading|
        now.is_plausible() && (final(registry)@, r@) == #[trigger] m.reconciled(channel_id, live, now);
    let before = m.opened(channel_id);
    let p = participants@[i];
    lemma_opened_valid(m, channel_id);
    law_closing_steps(m, channel_id, 0, Seq::empty(), live, now);
    assert(live[i] == p@);
    assert forall|j: int| i < j < live.len() implies (#[trigger] live[j]).user_id != live[i].user_id by {
        assert(live[j] == participants@[j]@);
    }
    law_listed_are_in(before, channel_id, live, now, i);
    let o = before.reconciled(channel_id, live, now);
    law_reconcile_counts(before, channel_id, live, now);
    assert(o.0.participants.contains_key(p.user_id));
    assert(!empties(o));
    law_change_modelled(r, 0);
    if 0 <= k < p.tracks@.len() {
        law_list_modelled(participants@, i, k);
        let sid = p.tracks@[k].0@;
        if last_track(live, i, k, sid) && !(before.tracks.contains_key(sid) && before.tracks[sid].source
            == TrackSource::Music) {
            law_listed_tracks_are_in(before, channel_id, live, now, i, k, sid);
        }
    }
}

/// Whoever and whatever LiveKit does not list is not in the room after a
/// reconciliation, but for rows that are provisional and music rows, which are
/// as they were.
pub proof fn law_room_reconciled_only(
    registry: &mut VoiceRegistry,
    channel_id: ChannelId,
    participants: Vec<ReconciledParticipant>,
    r: RoomChange,
    u: Uuid,
    s: Seq<char>,
)
    requires
        old(registry).wf(),
        call_ensures(VoiceRegistry::reconcile_room, (registry, channel_id, participants), r),
        final(registry)@.rooms.contains_key(channel_id),
        forall|i: int| 0 <= i < participants@.len() ==> (#[trigger] participants@[i]).user_id != u,
        !lists_track(live_list(participants@), s),
    ensures
        ({
            let before = old(registry)@.opened(channel_id);
            let after = final(registry)@.rooms[channel_id];
            &&& after.participants.contains_key(u) ==> before.participants.contains_key(u)
                && before.participants[u].sid is None && after.participants[u] == before.participants[u]
            &&& after.tracks.contains_key(s) ==> before.tracks.contains_key(s) && before.tracks[s].source
                == TrackSource::Music && after.tracks[s] == before.tracks[s]
        }),
{
    let m = old(registry)@;
    let live = live_list(participants@);
    let now = choose|now: Reading|
        now.is_plausible() && (final(registry)@, r@) == #[trigger] m.reconciled(channel_id, live, now);
    let before = m.opened(channel_id);
    lemma_opened_valid(m, channel_id);
    law_closing_steps(m, channel_id, 0, Seq::empty(), live, now);
    assert(!names(live, u)) by {
        if names(live, u) {
            let i = choose|i: int| 0 <= i < live.len() && (#[trigger] live[i]).user_id == u;
            assert(live[i] == participants@[i]@);
        }
    }
    law_unlisted_go(before, channel_id, live, now, u);
    law_unlisted_tracks_go(before, channel_id, live, now, s);
}

/// A prune closes the rooms that LiveKit does not report, and touches no others;
/// each is reported as closed, in order.
pub proof fn law_registry_pruned(
    registry: &mut VoiceRegistry,
    live_channels: &HashSet<ChannelId>,
    r: Vec<RoomChange>,
    c: Uuid,
)
    requires
        old(registry).wf(),
        call_ensures(VoiceRegistry::reconcile_prune, (registry, live_channels), r),
    ensures
        ({
            let (m, after) = (old(registry)@, final(registry)@);
            let kept = m.rooms.contains_key(c) && live_channels@.contains(c);
            &&& after.rooms.contains_key(c) <==> kept
            &&& kept ==> after.rooms[c] == m.rooms[c]
            &&& m.rooms.contains_key(c) && !kept ==> after.counter(c) == m.counter(c) + 1 && exists|i: int|
                0 <= i < r@.len() && (#[trigger] r@[i]).channel_id == c && r@[i].room_closed && r@[i].reason
                    == ChangeReason::ReconcileRemoved
            &&& forall|i: int, j: int|
                0 <= i < j < r@.len() ==> (#[trigger] r@[i]).channel_id < (#[trigger] r@[j]).channel_id
        }),
{
    let m = old(registry)@;
    let (after, ds) = m.pruned(live_channels@);
    law_prune_sweep(m, live_channels@, c);
    assert forall|i: int| 0 <= i < r@.len() implies (#[trigger] r@[i]).channel_id == ds[i].channel_id
        && ds[i] == r@[i]@ by {
        assert(change_list(r@)[i] == r@[i]@);
    }
    if m.rooms.contains_key(c) && !live_channels@.contains(c) {
        law_close(m.rooms[c], c, ChangeReason::ReconcileRemoved, 0, Seq::empty());
        let gone = m.rooms[c].closed(c, ChangeReason::ReconcileRemoved);
        assert(empties(gone));
        let i = choose|i: int| 0 <= i < ds.len() && reports(#[trigger] ds[i], gone);
        assert(r@[i].channel_id == c);
    }
}

/// A hint of joining puts a newcomer in, provisional unless it names its
/// session; a confirmed row it leaves as it is.
pub proof fn law_hinted_in(
    registry: &mut VoiceRegistry,
    channel_id: ChannelId,
    user_id: UserId,
    sid: Option<ParticipantSid>,
    is_bot: bool,
    r: RoomChange,
)
    requires
        old(registry).wf(),
        call_ensures(
            VoiceRegistry::hint_joining,
            (registry, channel_id, user_id, sid, is_bot),
            r,
        ),
    ensures
        ({
            let before = old(registry)@.opened(channel_id);
            let after = final(registry)@.rooms[channel_id];
            let row = after.participants[user_id];
            let there = before.participants.contains_key(user_id);
            let was = before.participants[user_id];
            &&& holds_instead(old(registry)@, final(registry)@, channel_id, after)
            &&& after.participants == before.participants.insert(user_id, row)
            &&& after.tracks == before.tracks
            &&& there && was.sid is Some ==> row == was
            &&& (!there || was.sid is None) && sid is Some ==> row.sid == Some(sid->0@)
            &&& (!there || was.sid is None) && sid is None ==> row.sid is None
            &&& !there ==> !row.muted && !row.deafened && (row.is_bot <==> is_bot || user_id == 1)
            &&& !there ==> r.participants_added@.len() == 1 && r.participants_added@[0]@ == row
            &&& r.version_before == r.version_after <==> there && (was.sid is Some || sid is None)
        }),
{
    let m = old(registry)@;
    let session = optional_text(sid);
    let now = choose|now: Reading|
        now.is_plausible() && (final(registry)@, r@) == #[trigger] m.hint_joined(
            channel_id,
            user_id,
            session,
            is_bot,
            now,
        );
    lemma_opened_valid(m, channel_id);
    law_opening_steps(m, channel_id, user_id, Seq::empty(), session, TrackSource::Music, is_bot, now);
    law_hint_join(m.opened(channel_id), channel_id, user_id, session, is_bot, now);
    law_change_modelled(r, 0);
}

/// A hint of leaving takes out who is not confirmed, and says of who is that the
/// channel has to be confirmed.
pub proof fn law_hinted_out(
    registry: &mut VoiceRegistry,
    channel_id: ChannelId,
    user_id: UserId,
    r: (RoomChange, bool),
)
    requires
        old(registry).wf(),
        call_ensures(VoiceRegistry::hint_leaving, (registry, channel_id, user_id), r),
    ensures
        ({
            let (m, after) = (old(registry)@, final(registry)@);
            let there = m.rooms.contains_key(channel_id) && m.rooms[channel_id].participants.contains_key(
                user_id,
            );
            let sure = there && m.rooms[channel_id].participants[user_id].sid is Some;
            &&& r.1 <==> sure
            &&& !there || sure ==> after.rooms == m.rooms && r.0.version_before == r.0.version_after
            &&& there && !sure ==> {
                &&& !(after.rooms.contains_key(channel_id)
                    && after.rooms[channel_id].participants.contains_key(user_id))
                &&& after.rooms.contains_key(channel_id) ==> after.rooms[channel_id].participants
                    == m.rooms[channel_id].participants.remove(user_id)
                &&& r.0.participants_removed@ == seq![user_id]
                &&& r.0.version_after == r.0.version_before + 1
            }
        }),
{
    let m = old(registry)@;
    law_closing_steps(m, channel_id, user_id, Seq::empty(), Seq::empty(), arbitrary());
    if m.rooms.contains_key(channel_id) {
        law_hint_leave(m.rooms[channel_id], channel_id, user_id, Seq::empty());
        if !(m.rooms[channel_id].participants.contains_key(user_id)
            && m.rooms[channel_id].participants[user_id].sid is None) {
            assert(m.rooms.insert(channel_id, m.rooms[channel_id]) =~= m.rooms);
        }
    }
    law_change_modelled(r.0, 0);
}

/// A hint about a track: who is in the room puts in a track that is not there,
/// as its own and of the source that it names; who owns a track takes it down;
/// everyone else is refused, and then nothing changes.
pub proof fn law_track_hinted(
    registry: &mut VoiceRegistry,
    channel_id: ChannelId,
    user_id: UserId,
    track_sid: TrackSid,
    source: TrackSource,
    published: bool,
    r: Result<RoomChange, HintError>,
)
    requires
        call_ensures(
            VoiceRegistry::hint_track,
            (registry, channel_id, user_id, track_sid, source, published),
            r,
        ),
    ensures
        ({
            let (m, after) = (old(registry)@, final(registry)@);
            let open = m.rooms.contains_key(channel_id);
            let room = m.rooms[channel_id];
            let sid = track_sid@;
            let here = open && room.participants.contains_key(user_id);
            let there = open && room.tracks.contains_key(sid);
            let t = after.rooms[channel_id].tracks[sid];
            &&& r is Err ==> after == m
            &&& published ==> (r is Ok <==> here)
            &&& published && !here ==> r->Err_0 == HintError::NotInCall
            &&& published && here && !there ==> {
                &&& after.rooms[channel_id].tracks == room.tracks.insert(sid, t)
                &&& t.owner == user_id && t.source == source && !t.muted && t.sid == sid
                &&& r->Ok_0.tracks_added@.len() == 1 && r->Ok_0.tracks_added@[0]@ == t
            }
            &&& published && here && there ==> after.rooms == m.rooms
            &&& !published ==> (r is Ok <==> there && room.tracks[sid].owner == user_id)
            &&& !published && !there ==> r->Err_0 == HintError::TrackNotFound
            &&& !published && there && room.tracks[sid].owner != user_id ==> r->Err_0
                == HintError::NotTrackOwner
            &&& !published && r is Ok ==> {
                &&& after.rooms[channel_id].tracks == room.tracks.remove(sid)
                &&& r->Ok_0.tracks_removed@.len() == 1 && r->Ok_0.tracks_removed@[0]@ == sid
            }
            &&& r is Ok ==> holds_instead(m, after, channel_id, after.rooms[channel_id])
        }),
{
    let m = old(registry)@;
    law_claim_steps(m, channel_id, user_id, track_sid@, source, None, None);
    if m.rooms.contains_key(channel_id) {
        law_hint_publish(m.rooms[channel_id], channel_id, user_id, track_sid@, source);
        law_hint_unpublish(m.rooms[channel_id], channel_id, user_id, track_sid@);
        if published && m.rooms[channel_id].tracks.contains_key(track_sid@) {
            assert(m.rooms.insert(channel_id, m.rooms[channel_id]) =~= m.rooms);
        }
    }
    if r is Ok {
        law_change_modelled(r->Ok_0, 0);
    }
}

/// Who is in a channel is muted as it asks, or as it was where it does not ask,
/// and deafened likewise; nothing else changes. Who is not is refused.
pub proof fn law_audio_state_set(
    registry: &mut VoiceRegistry,
    channel_id: ChannelId,
    user_id: UserId,
    muted: Option<bool>,
    deafened: Option<bool>,
    r: Result<RoomChange, HintError>,
)
    requires
        old(registry).wf(),
        call_ensures(
            VoiceRegistry::set_audio_state,
            (registry, channel_id, user_id, muted, deafened),
            r,
        ),
    ensures
        ({
            let (m, after) = (old(registry)@, final(registry)@);
            let room = m.rooms[channel_id];
            let here = m.rooms.contains_key(channel_id) && room.participants.contains_key(user_id);
            let was = room.participants[user_id];
            let row = after.rooms[channel_id].participants[user_id];
            &&& r is Ok <==> here
            &&& !here ==> r->Err_0 == HintError::NotInCall && after == m
            &&& here ==> {
                &&& holds_instead(m, after, channel_id, after.rooms[channel_id])
                &&& after.rooms[channel_id].participants == room.participants.insert(user_id, row)
                &&& after.rooms[channel_id].tracks == room.tracks
                &&& muted is Some ==> row.muted == muted->0
                &&& muted is None ==> row.muted == was.muted
                &&& deafened is Some ==> row.deafened == deafened->0
                &&& deafened is None ==> row.deafened == was.deafened
                &&& row.sid == was.sid && row.joined_at == was.joined_at && row.is_bot == was.is_bot
                &&& row.user_id == user_id
                &&& row == was ==> r->Ok_0.version_before == r->Ok_0.version_after
                &&& row != was ==> {
                    &&& r->Ok_0.version_after == r->Ok_0.version_before + 1
                    &&& r->Ok_0.participants_updated@.len() == 1
                    &&& r->Ok_0.participants_updated@[0].user_id == user_id
                    &&& r->Ok_0.participants_updated@[0].muted == row.muted
                    &&& r->Ok_0.participants_updated@[0].deafened == row.deafened
                }
            }
        }),
{
    let m = old(registry)@;
    law_claim_steps(m, channel_id, user_id, Seq::empty(), TrackSource::Music, muted, deafened);
    if m.rooms.contains_key(channel_id) {
        law_set_audio(m.rooms[channel_id], channel_id, user_id, muted, deafened);
    }
    if r is Ok {
        law_change_modelled(r->Ok_0, 0);
        if r->Ok_0.participants_updated@.len() > 0 {
            law_participant_modelled(r->Ok_0.participants_updated@[0]);
        }
    }
}

/// While music plays in a channel its room has the music row, which the bot
/// owns; when it stops it has none.
pub proof fn law_music_row_set(registry: &mut VoiceRegistry, channel_id: ChannelId, playing: bool, r: RoomChange)
    requires
        call_ensures(VoiceRegistry::set_music_row, (registry, channel_id, playing), r),
    ensures
        ({
            let (m, after) = (old(registry)@, final(registry)@);
            let sid = "music:"@ + uuid_text(channel_id);
            let before = m.opened(channel_id);
            let t = after.rooms[channel_id].tracks[sid];
            let was = before.tracks.contains_key(sid);
            &&& playing ==> after.rooms.contains_key(channel_id)
                && after.rooms[channel_id].tracks.contains_key(sid)
            &&& playing && !was ==> {
                &&& t.owner == 1 && t.source == TrackSource::Music && !t.muted && t.owner_sid is None
                &&& after.rooms[channel_id].tracks == before.tracks.insert(sid, t)
                &&& r.tracks_added@.len() == 1 && r.tracks_added@[0]@ == t
            }
            &&& !playing && after.rooms.contains_key(channel_id) ==> after.rooms[channel_id].tracks
                == before.tracks.remove(sid)
            &&& !playing && was ==> r.tracks_removed@.len() == 1 && r.tracks_removed@[0]@ == sid
            &&& after.rooms.contains_key(channel_id) ==> after.rooms[channel_id].participants
                == before.participants
            &&& playing == was ==> r.version_before == r.version_after
            &&& playing != was ==> r.version_after == r.version_before + 1
        }),
{
    let m = old(registry)@;
    law_music_step(m, channel_id, playing);
    law_room_opened(m, channel_id, 0, "music:"@ + uuid_text(channel_id));
    law_set_music(m.opened(channel_id), channel_id, playing);
    law_change_modelled(r, 0);
    let sid = "music:"@ + uuid_text(channel_id);
    if !playing && !m.opened(channel_id).tracks.contains_key(sid) {
        assert(m.opened(channel_id).tracks.remove(sid) =~= m.opened(channel_id).tracks);
    }
}

/// Expiry takes out exactly who has been provisional for ten seconds or longer
/// at some moment since the clock was started.
pub proof fn law_provisionals_expired(registry: &mut VoiceRegistry, r: Vec<RoomChange>)
    requires
        old(registry).wf(),
        call_ensures(VoiceRegistry::expire_provisionals, (registry,), r),
    ensures
        exists|now: i128|
            0 <= now && #[trigger] expiry_done(old(registry)@, final(registry)@, now),
{
    let now = choose|now: i128|
        0 <= now && (final(registry)@, change_list(r@)) == #[trigger] old(registry)@.expired(now);
    lemma_expiry_done(old(registry)@, now);
}

proof fn lemma_expiry_done(m: RegistryModel, now: i128)
    requires
        m.valid(),
    ensures
        expiry_done(m, m.expired(now).0, now),
{
    let after = m.expired(now).0;
    assert forall|c: Uuid, u: Uuid| #[trigger] stays_unless_overdue(m, after, now, c, u) by {
        law_expiry_sweep(m, now, c);
        if m.rooms.contains_key(c) {
            law_expire(m.rooms[c], c, now, u, Seq::empty());
        }
    }
}

/// Is `u` in `c` exactly if it was and was not overdue?
pub open spec fn stays_unless_overdue(m: RegistryModel, after: RegistryModel, now: i128, c: Uuid, u: Uuid) -> bool {
    after.rooms.contains_key(c) && after.rooms[c].participants.contains_key(u) <==> m.rooms.contains_key(c)
        && m.rooms[c].participants.contains_key(u) && !overdue(m.rooms[c], u, now)
}

/// Is everyone in the registry who was, but for those who were overdue?
pub open spec fn expiry_done(m: RegistryModel, after: RegistryModel, now: i128) -> bool {
    forall|c: Uuid, u: Uuid| #[trigger] stays_unless_overdue(m, after, now, c, u)
}

/// The deletion of a channel leaves it without a room, and names everyone and
/// everything that was in it.
pub proof fn law_channel_deleted(registry: &mut VoiceRegistry, channel_id: ChannelId, r: RoomChange, u: Uuid)
    requires
        old(registry).wf(),
        call_ensures(VoiceRegistry::close_channel, (registry, channel_id), r),
    ensures
        ({
            let (m, after) = (old(registry)@, final(registry)@);
            &&& after.rooms == m.rooms.remove(channel_id)
            &&& m.rooms.contains_key(channel_id) ==> {
                &&& r.room_closed
                &&& r.version_after == r.version_before + 1
                &&& r.participants_removed@.contains(u) <==> m.rooms[channel_id].participants.contains_key(u)
                &&& r.reason == ChangeReason::ChannelDeleted
            }
            &&& !m.rooms.contains_key(channel_id) ==> r.version_after == r.version_before
        }),
{
    let m = old(registry)@;
    law_closing_steps(m, channel_id, 0, Seq::empty(), Seq::empty(), arbitrary());
    law_deleted_channel_has_no_room(m, channel_id);
    if m.rooms.contains_key(channel_id) {
        law_close(m.rooms[channel_id], channel_id, ChangeReason::ChannelDeleted, u, Seq::empty());
    }
    law_change_modelled(r, 0);
}

/// An event is a duplicate if it was seen before, and is known from then on.
pub proof fn law_duplicate_told(registry: &mut VoiceRegistry, key: &str, r: bool)
    requires
        old(registry).wf(),
        call_ensures(VoiceRegistry::is_duplicate_event, (registry, key), r),
    ensures
        r <==> old(registry)@.seen.contains(key@),
        final(registry)@.seen.contains(key@),
        final(registry)@.rooms == old(registry)@.rooms,
        r ==> final(registry)@ == old(registry)@,
{
    law_event_seen(old(registry)@, key@);
    law_seen_event_known(old(registry)@, key@);
}

/// What can be asked of a registry: the version of a channel, or zero; whether
/// someone is in it; who is, in order; how many people it counts; and whether
/// those are as many as it admits, which is ten.
pub proof fn law_channel_asked(
    registry: &VoiceRegistry,
    channel_id: ChannelId,
    user_id: UserId,
    version: u64,
    within: bool,
    ids: Vec<UserId>,
    count: usize,
    full: bool,
)
    requires
        registry.wf(),
        call_ensures(VoiceRegistry::version, (registry, channel_id), version),
        call_ensures(VoiceRegistry::is_participant, (registry, channel_id, user_id), within),
        call_ensures(VoiceRegistry::participant_ids, (registry, channel_id), ids),
        call_ensures(VoiceRegistry::human_count, (registry, channel_id), count),
        call_ensures(VoiceRegistry::is_full, (registry, channel_id), full),
    ensures
        ({
            let m = registry@;
            let open = m.rooms.contains_key(channel_id);
            &&& open ==> version == m.rooms[channel_id].version
            &&& !open ==> version == 0 && ids@.len() == 0 && count == 0 && !full
            &&& within <==> open && m.rooms[channel_id].participants.contains_key(user_id)
            &&& ids@.contains(user_id) <==> within
            &&& ids_rise(ids@)
            &&& open ==> forall|counted: Set<Uuid>|
                #![trigger counted.len()]
                (forall|u: Uuid| #[trigger]
                    counted.contains(u) <==> m.rooms[channel_id].participants.contains_key(u)
                        && m.rooms[channel_id].participants[u].sid is Some
                        && !m.rooms[channel_id].participants[u].is_bot) ==> count == counted.len()
            &&& full <==> count >= 10
        }),
{
    let m = registry@;
    if m.rooms.contains_key(channel_id) {
        let room = m.rooms[channel_id];
        law_ids_listed(room.participants.dom(), user_id);
        assert forall|counted: Set<Uuid>|
            #![trigger counted.len()]
            (forall|u: Uuid| #[trigger]
                counted.contains(u) <==> room.participants.contains_key(u) && room.participants[u].sid is Some
                    && !room.participants[u].is_bot) implies count == counted.len() by {
            law_capacity_counts(room, counted);
        }
    }
}

/// What else can be asked: the channels with a room, those with someone in it,
/// in order, and the channel of a user, the lowest where it is in more than one.
pub proof fn law_channels_asked(
    registry: &VoiceRegistry,
    user_id: UserId,
    all: Vec<ChannelId>,
    active: Vec<ChannelId>,
    found: Option<ChannelId>,
    c: Uuid,
)
    requires
        registry.wf(),
        call_ensures(VoiceRegistry::all_channel_ids, (registry,), all),
        call_ensures(VoiceRegistry::active_channel_ids, (registry,), active),
        call_ensures(VoiceRegistry::channel_of, (registry, user_id), found),
    ensures
        ({
            let m = registry@;
            &&& all@.contains(c) <==> m.rooms.contains_key(c)
            &&& ids_rise(all@)
            &&& active@.contains(c) <==> m.rooms.contains_key(c) && exists|u: Uuid|
                m.rooms[c].participants.contains_key(u)
            &&& ids_rise(active@)
            &&& found is None ==> !(m.rooms.contains_key(c) && m.rooms[c].participants.contains_key(user_id))
            &&& found is Some ==> {
                &&& m.rooms.contains_key(found->0) && m.rooms[found->0].participants.contains_key(user_id)
                &&& m.rooms.contains_key(c) && m.rooms[c].participants.contains_key(user_id) ==> found->0
                    <= c
            }
        }),
{
    let m = registry@;
    law_ids_listed(m.rooms.dom(), c);
    let busy = m.rooms.dom().filter(|c: Uuid| !m.rooms[c].deserted());
    vstd::set_lib::lemma_set_subset_finite(m.rooms.dom(), busy);
    law_ids_listed(busy, c);
    law_rooms_listed(Seq::empty(), 0, m, c);
    law_channel_found(m, user_id, c);
}

/// A change is told to clients of the second dialect by a message that says what
/// the change says; an empty one is not told.
pub proof fn law_change_published(change: &RoomChange, r: Option<OutboundEnvelope>, i: int)
    requires
        call_ensures(publish_room_change, (change,), r),
    ensures
        r is None <==> change.version_before == change.version_after,
        r is Some ==> {
            let m = r->0;
            let d = m.data->VoiceRoomDelta_0;
            &&& m.v == 1 && m.op@ == "voice.room.delta"@ && m.data is VoiceRoomDelta
            &&& d.channel_id == change.channel_id
            &&& d.previous_version == change.version_before
            &&& d.version == change.version_after
            &&& d.participants_removed@ == change.participants_removed@
            &&& d.participants_updated@.len() == change.participants_updated@.len()
            &&& 0 <= i < d.participants_updated@.len() ==> {
                &&& d.participants_updated@[i].user_id == change.participants_updated@[i].user_id
                &&& d.participants_updated@[i].muted == change.participants_updated@[i].muted
                &&& d.participants_updated@[i].deafened == change.participants_updated@[i].deafened
            }
            &&& d.tracks_added@.len() == change.tracks_added@.len()
            &&& 0 <= i < d.tracks_added@.len() ==> {
                &&& d.tracks_added@[i].track_sid@ == change.tracks_added@[i].sid@
                &&& d.tracks_added@[i].owner == change.tracks_added@[i].owner
                &&& d.tracks_added@[i].source@ == change.tracks_added@[i].source.wire()
                &&& d.tracks_added@[i].muted == change.tracks_added@[i].muted
            }
        },
{
    if r is Some {
        law_delta_shown(*change, r->0.data->VoiceRoomDelta_0, i);
    }
    law_change_modelled(*change, i);
}

/// A roster tells clients of the first dialect who is in a channel and what is
/// streamed there.
pub proof fn law_roster_told(
    channel_id: ChannelId,
    participants: Vec<VoiceRosterEntry>,
    streams: Vec<StreamDto>,
    r: OutboundEnvelope,
)
    requires
        call_ensures(roster_message, (channel_id, participants, streams), r),
    ensures
        r.v == 1,
        r.op@ == "voice.roster"@,
        r.data is VoiceRoster,
        r.data->VoiceRoster_0.channel_id == channel_id,
        r.data->VoiceRoster_0.participants == participants,
        r.data->VoiceRoster_0.streams == streams,
{
}

/// Rooms are shown in the order of their channels, each as it is.
pub proof fn law_rooms_shown(
    registry: &VoiceRegistry,
    channel_ids: &[ChannelId],
    r: Vec<VoiceRoomDto>,
    i: int,
    j: int,
)
    requires
        call_ensures(VoiceRegistry::room_dtos, (registry, channel_ids), r),
        0 <= i < j < r@.len(),
    ensures
        registry@.rooms.contains_key(r@[i].channel_id),
        r@[i].version == registry@.rooms[r@[i].channel_id].version,
        r@[i].channel_id <= r@[j].channel_id,
{
}

/// What clients are shown of a row is what the row says.
pub proof fn law_rows_told(
    row: &VoiceParticipant,
    p: VoiceParticipantDto,
    track: &VoiceTrack,
    t: VoiceTrackDto,
    change: &RoomChange,
    d: VoiceRoomDelta,
)
    requires
        call_ensures(VoiceParticipant::to_dto, (row,), p),
        call_ensures(VoiceTrack::to_dto, (track,), t),
        call_ensures(RoomChange::to_delta, (change,), d),
    ensures
        p.user_id == row.user_id,
        p.muted == row.muted,
        p.deafened == row.deafened,
        p.is_bot == row.is_bot,
        p.provisional <==> row.sid is None,
        p.participant_sid is Some <==> row.sid is Some,
        row.sid is Some ==> p.participant_sid->0@ == row.sid->0@,
        p.joined_at == row.joined_at,
        t.track_sid@ == track.sid@,
        t.owner == track.owner,
        t.muted == track.muted,
        t.source@ == track.source.wire(),
        t.owner_sid is Some <==> track.owner_sid is Some,
        track.owner_sid is Some ==> t.owner_sid->0@ == track.owner_sid->0@,
        d.channel_id == change.channel_id,
        d.previous_version == change.version_before,
        d.version == change.version_after,
        d.reason@ == change.reason.wire(),
        d.participants_added@.len() == change.participants_added@.len(),
        d.participants_removed@ == change.participants_removed@,
{
    law_participant_shown(*row, p);
    law_track_shown(*track, t);
    law_delta_shown(*change, d, 0);
}

/// What clients are shown of a room has its channel and its version, everyone in
/// it and every track.
pub proof fn law_room_told(room: &VoiceRoom, channel_id: ChannelId, dto: VoiceRoomDto, u: Uuid, s: Seq<char>)
    requires
        room@.valid(),
        call_ensures(VoiceRoom::to_dto, (room, channel_id), dto),
    ensures
        dto.channel_id == channel_id,
        dto.version == room.version,
        room.participants@.contains_key(u) <==> exists|i: int|
            0 <= i < dto.participants@.len() && (#[trigger] dto.participants@[i]).user_id == u,
        room.tracks@.contains_key(s) <==> exists|i: int|
            0 <= i < dto.tracks@.len() && (#[trigger] dto.tracks@[i]).track_sid@ == s,
{
    law_room_shown(*room, channel_id, dto, u, s);
}

} // verus!
