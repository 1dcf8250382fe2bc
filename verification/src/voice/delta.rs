//! Clients that follow a room by its changes stay in step with it.
//!
//! What is stated here is stated of one room and one change of it, while the
//! room is open. `history` states what holds of a channel across the closing
//! of its room.

use vstd::prelude::*;

use crate::clock::Reading;
use crate::ident::{Uuid, MUSIC_BOT_ID};
use crate::listing::{
    id_order, lemma_listing_exists, lemma_text_order, sorted_ids, sorted_texts, text_order,
};
use crate::voice::model::{
    by_sid, live_rows, live_users, music_row, music_sid, ChangeModel, LiveParticipant, Outcome,
    ParticipantModel, RoomModel, Seating, TrackModel,
};
use crate::voice::reconcile::{lemma_by_sid_finite, lemma_without_users_valid};
use crate::voice::types::{ChangeReason, TrackSource};
use crate::voice::validity::{lemma_by_sid_row, lemma_take_in_all};

verus! {

/// What a client knows of a room.
#[verifier::ext_equal]
pub struct ClientRoom {
    pub version: nat,
    pub participants: Map<Uuid, ParticipantModel>,
    pub tracks: Map<Seq<char>, TrackModel>,
}

/// What a client does with a change.
pub enum Reception {
    /// It follows on what the client knows, and is applied.
    Applied(ClientRoom),
    /// It was applied before.
    Ignored,
    /// A change between is missing: the client asks for a snapshot.
    Gap,
}

/// Rows put in one after the other.
pub open spec fn put_all(
    rows: Map<Uuid, ParticipantModel>,
    more: Seq<ParticipantModel>,
) -> Map<Uuid, ParticipantModel>
    decreases more.len(),
{
    if more.len() == 0 {
        rows
    } else {
        put_all(rows, more.drop_last()).insert(more.last().user_id, more.last())
    }
}

/// Tracks put in one after the other.
pub open spec fn put_all_tracks(
    rows: Map<Seq<char>, TrackModel>,
    more: Seq<TrackModel>,
) -> Map<Seq<char>, TrackModel>
    decreases more.len(),
{
    if more.len() == 0 {
        rows
    } else {
        put_all_tracks(rows, more.drop_last()).insert(more.last().sid, more.last())
    }
}

impl RoomModel {
    /// What a client knows that has a snapshot of this room.
    pub open spec fn known(self) -> ClientRoom {
        ClientRoom { version: self.version, participants: self.participants, tracks: self.tracks }
    }
}

impl ClientRoom {
    /// What a client knows once it has applied a change, in the order of the
    /// protocol: participants removed, tracks removed, participants added,
    /// participants updated, tracks added.
    pub open spec fn applied(self, d: ChangeModel) -> Self {
        ClientRoom {
            version: d.version_after,
            participants: put_all(
                put_all(
                    self.participants.remove_keys(d.participants_removed.to_set()),
                    d.participants_added,
                ),
                d.participants_updated,
            ),
            tracks: put_all_tracks(
                self.tracks.remove_keys(d.tracks_removed.to_set()),
                d.tracks_added,
            ),
        }
    }

    /// What a client does with a change of a room that it knows.
    pub open spec fn receives(self, d: ChangeModel) -> Reception {
        if d.version_before == self.version {
            Reception::Applied(self.applied(d))
        } else if d.version_after <= self.version {
            Reception::Ignored
        } else {
            Reception::Gap
        }
    }
}

/// Does the change say exactly what became of the room?
pub open spec fn tells(before: RoomModel, outcome: Outcome) -> bool {
    &&& outcome.1.version_before == before.version
    &&& outcome.1.version_after == outcome.0.version
    &&& before.known().applied(outcome.1) == outcome.0.known()
}

proof fn lemma_put_one(rows: Map<Uuid, ParticipantModel>, p: ParticipantModel)
    ensures
        put_all(rows, seq![p]) == rows.insert(p.user_id, p),
        put_all(rows, Seq::empty()) == rows,
{
    let one = seq![p];
    assert(one.drop_last() =~= Seq::empty());
    assert(put_all(rows, one.drop_last()) == rows);
}

proof fn lemma_put_one_track(rows: Map<Seq<char>, TrackModel>, t: TrackModel)
    ensures
        put_all_tracks(rows, seq![t]) == rows.insert(t.sid, t),
        put_all_tracks(rows, Seq::empty()) == rows,
{
    let one = seq![t];
    assert(one.drop_last() =~= Seq::empty());
    assert(put_all_tracks(rows, one.drop_last()) == rows);
}

proof fn lemma_listed_ids(set: Set<Uuid>)
    requires
        set.finite(),
    ensures
        sorted_ids(set).to_set() == set,
{
    lemma_listing_exists(set, id_order());
    assert forall|u: Uuid| sorted_ids(set).to_set().contains(u) <==> set.contains(u) by {
        assert(sorted_ids(set).contains(u) <==> set.contains(u));
    }
    assert(sorted_ids(set).to_set() =~= set);
}

proof fn lemma_listed_texts(set: Set<Seq<char>>)
    requires
        set.finite(),
    ensures
        sorted_texts(set).to_set() == set,
{
    lemma_text_order();
    lemma_listing_exists(set, text_order());
    assert forall|s: Seq<char>| sorted_texts(set).to_set().contains(s) <==> set.contains(s) by {
        assert(sorted_texts(set).contains(s) <==> set.contains(s));
    }
    assert(sorted_texts(set).to_set() =~= set);
}

/// Nothing is removed.
proof fn lemma_remove_nothing(room: RoomModel)
    ensures
        room.participants.remove_keys(Seq::<Uuid>::empty().to_set()) == room.participants,
        room.tracks.remove_keys(Seq::<Seq<char>>::empty().to_set()) == room.tracks,
{
    assert(room.participants.remove_keys(Seq::<Uuid>::empty().to_set()) =~= room.participants);
    assert(room.tracks.remove_keys(Seq::<Seq<char>>::empty().to_set()) =~= room.tracks);
}

proof fn lemma_unchanged_tells(room: RoomModel, channel: Uuid, reason: ChangeReason)
    ensures
        tells(room, room.unchanged(channel, reason)),
{
    lemma_remove_nothing(room);
    assert(room.known().applied(room.unchanged(channel, reason).1) =~= room.known());
}

proof fn lemma_adding_tells(room: RoomModel, channel: Uuid, p: ParticipantModel, reason: ChangeReason)
    ensures
        tells(room, room.adding(channel, p, reason)),
        tells(room, room.updating(channel, p, reason)),
{
    lemma_remove_nothing(room);
    lemma_put_one(room.participants, p);
    let with_p = room.participants.insert(p.user_id, p);
    assert(put_all(with_p, Seq::empty()) == with_p);
    let added = room.adding(channel, p, reason);
    let updated = room.updating(channel, p, reason);
    assert(room.known().applied(added.1) =~= added.0.known());
    assert(room.known().applied(updated.1) =~= updated.0.known());
}

proof fn lemma_removing_tells(room: RoomModel, channel: Uuid, users: Set<Uuid>, reason: ChangeReason)
    requires
        room.valid(),
        users.finite(),
    ensures
        tells(room, room.removing(channel, users, reason)),
{
    lemma_listed_ids(users);
    assert(room.owned_by(users).subset_of(room.tracks.dom()));
    lemma_listed_texts(room.owned_by(users));
    let outcome = room.removing(channel, users, reason);
    assert(room.known().applied(outcome.1) =~= outcome.0.known());
}

proof fn lemma_adding_track_tells(room: RoomModel, channel: Uuid, t: TrackModel, reason: ChangeReason)
    ensures
        tells(room, room.adding_track(channel, t, reason)),
{
    lemma_remove_nothing(room);
    lemma_put_one_track(room.tracks, t);
    let outcome = room.adding_track(channel, t, reason);
    assert(room.known().applied(outcome.1) =~= outcome.0.known());
}

proof fn lemma_removing_track_tells(room: RoomModel, channel: Uuid, sid: Seq<char>, reason: ChangeReason)
    ensures
        tells(room, room.removing_track(channel, sid, reason)),
{
    lemma_remove_nothing(room);
    let outcome = room.removing_track(channel, sid, reason);
    assert(seq![sid].to_set() =~= set![sid]) by {
        assert(seq![sid][0] == sid);
        assert(seq![sid].contains(sid));
    }
    assert(room.tracks.remove_keys(set![sid]) =~= room.tracks.remove(sid));
    assert(room.known().applied(outcome.1) =~= outcome.0.known());
}

/// A join is told exactly.
pub proof fn law_joined_told(room: RoomModel, channel: Uuid, user: Uuid, sid: Seq<char>, now: Reading)
    requires
        room.valid(),
    ensures
        tells(room, room.joined(channel, user, sid, now)),
{
    let reason = ChangeReason::WebhookParticipantJoined;
    lemma_unchanged_tells(room, channel, reason);
    lemma_adding_tells(
        room,
        channel,
        ParticipantModel::fresh(user, Some(sid), user == MUSIC_BOT_ID, now),
        reason,
    );
    lemma_adding_tells(room, channel, room.participants[user].confirmed(sid), reason);
}

/// A leave is told exactly.
pub proof fn law_left_told(room: RoomModel, channel: Uuid, user: Uuid, sid: Seq<char>)
    requires
        room.valid(),
    ensures
        tells(room, room.left(channel, user, sid)),
{
    let reason = ChangeReason::WebhookParticipantLeft;
    lemma_unchanged_tells(room, channel, reason);
    lemma_removing_tells(room, channel, set![user], reason);
}

/// A publication is told exactly, with the owner that it may bring.
pub proof fn law_published_told(
    room: RoomModel,
    channel: Uuid,
    user: Uuid,
    session: Option<Seq<char>>,
    sid: Seq<char>,
    source: TrackSource,
    now: Reading,
)
    requires
        room.valid(),
    ensures
        tells(room, room.published(channel, user, session, sid, source, now)),
{
    let reason = ChangeReason::WebhookTrackPublished;
    let outcome = room.published(channel, user, session, sid, source, now);
    if room.tracks.contains_key(sid) {
        lemma_unchanged_tells(room, channel, reason);
    } else if room.participants.contains_key(user) {
        lemma_adding_track_tells(room, channel, outcome.1.tracks_added[0], reason);
        let owner_sid = if session is Some {
            session
        } else {
            room.participants[user].sid
        };
        let t = TrackModel { sid, owner: user, owner_sid, source, muted: false };
        lemma_adding_track_tells(room, channel, t, reason);
    } else {
        let p = ParticipantModel::fresh(user, session, user == MUSIC_BOT_ID, now);
        let t = TrackModel { sid, owner: user, owner_sid: session, source, muted: false };
        lemma_remove_nothing(room);
        lemma_put_one(room.participants, p);
        lemma_put_one_track(room.tracks, t);
        let with_p = room.participants.insert(p.user_id, p);
        assert(put_all(with_p, Seq::empty()) == with_p);
        assert(room.known().applied(outcome.1) =~= outcome.0.known());
    }
}

/// The end of a publication is told exactly, and so is its muting.
pub proof fn law_track_told(room: RoomModel, channel: Uuid, sid: Seq<char>, muted: bool)
    requires
        room.valid(),
    ensures
        tells(room, room.unpublished(channel, sid)),
        tells(room, room.track_muted(channel, sid, muted)),
{
    lemma_unchanged_tells(room, channel, ChangeReason::WebhookTrackUnpublished);
    lemma_removing_track_tells(room, channel, sid, ChangeReason::WebhookTrackUnpublished);
    lemma_unchanged_tells(room, channel, ChangeReason::WebhookTrackMuted);
    lemma_adding_track_tells(
        room,
        channel,
        TrackModel { muted, ..room.tracks[sid] },
        ChangeReason::WebhookTrackMuted,
    );
}

/// What a presence hint does is told exactly.
pub proof fn law_presence_hint_told(
    room: RoomModel,
    channel: Uuid,
    user: Uuid,
    sid: Option<Seq<char>>,
    is_bot: bool,
    now: Reading,
)
    requires
        room.valid(),
    ensures
        tells(room, room.hint_joined(channel, user, sid, is_bot, now)),
        tells(room, room.hint_left(channel, user)),
{
    let reason = ChangeReason::WsPresenceHint;
    lemma_unchanged_tells(room, channel, reason);
    lemma_adding_tells(
        room,
        channel,
        ParticipantModel::fresh(user, sid, is_bot || user == MUSIC_BOT_ID, now),
        reason,
    );
    if sid is Some {
        lemma_adding_tells(room, channel, room.participants[user].confirmed(sid->0), reason);
    }
    lemma_removing_tells(room, channel, set![user], reason);
}

/// What a track hint does is told exactly.
pub proof fn law_track_hint_told(
    room: RoomModel,
    channel: Uuid,
    user: Uuid,
    sid: Seq<char>,
    source: TrackSource,
)
    requires
        room.valid(),
    ensures
        room.hint_published(channel, user, sid, source) matches Ok(o) ==> tells(room, o),
        room.hint_unpublished(channel, user, sid) matches Ok(o) ==> tells(room, o),
{
    let reason = ChangeReason::WsTrackHint;
    lemma_unchanged_tells(room, channel, reason);
    lemma_removing_track_tells(room, channel, sid, reason);
    lemma_adding_track_tells(
        room,
        channel,
        TrackModel {
            sid,
            owner: user,
            owner_sid: room.participants[user].sid,
            source,
            muted: false,
        },
        reason,
    );
}

/// A change of mute, of deafen or of the music row is told exactly.
pub proof fn law_own_state_told(
    room: RoomModel,
    channel: Uuid,
    user: Uuid,
    muted: Option<bool>,
    deafened: Option<bool>,
    playing: bool,
)
    requires
        room.valid(),
    ensures
        room.audio_set(channel, user, muted, deafened) matches Ok(o) ==> tells(room, o),
        tells(room, room.music_set(channel, playing)),
{
    lemma_unchanged_tells(room, channel, ChangeReason::WsStateUpdate);
    let row = room.participants[user];
    lemma_adding_tells(
        room,
        channel,
        ParticipantModel {
            muted: muted.unwrap_or(row.muted),
            deafened: deafened.unwrap_or(row.deafened),
            ..row
        },
        ChangeReason::WsStateUpdate,
    );
    let reason = ChangeReason::WsTrackHint;
    lemma_unchanged_tells(room, channel, reason);
    lemma_adding_track_tells(room, channel, music_row(channel), reason);
    lemma_removing_track_tells(room, channel, music_sid(channel), reason);
}

/// What time and deletion take out is told exactly.
pub proof fn law_upkeep_told(room: RoomModel, channel: Uuid, now: i128, reason: ChangeReason)
    requires
        room.valid(),
    ensures
        tells(room, room.expired(channel, now)),
        tells(room, room.closed(channel, reason)),
{
    assert(room.expired_at(now).subset_of(room.participants.dom()));
    vstd::set_lib::lemma_set_subset_finite(room.participants.dom(), room.expired_at(now));
    lemma_removing_tells(room, channel, room.expired_at(now), ChangeReason::ProvisionalExpired);
    lemma_listed_ids(room.participants.dom());
    lemma_listed_texts(room.tracks.dom());
    let outcome = room.closed(channel, reason);
    assert(room.known().applied(outcome.1) =~= outcome.0.known());
}

/// A list that was taken in is told exactly: the rows that were added, then
/// the rows that were updated, give the room.
proof fn lemma_seating_told(start: RoomModel, live: Seq<LiveParticipant>, now: Reading)
    ensures
        ({
            let s = (Seating { room: start, added: Seq::empty(), updated: Seq::empty() }).take_in_all(
                live,
                now,
            );
            put_all(put_all(start.participants, s.added), s.updated) == s.room.participants
        }),
    decreases live.len(),
{
    let first = Seating { room: start, added: Seq::empty(), updated: Seq::empty() };
    let s = first.take_in_all(live, now);
    if live.len() > 0 {
        let some = first.take_in_all(live.drop_last(), now);
        lemma_seating_told(start, live.drop_last(), now);
        let p = live.last();
        if !some.room.participants.contains_key(p.user_id) {
            let row = ParticipantModel::fresh(p.user_id, Some(p.sid), p.user_id == MUSIC_BOT_ID, now);
            assert(s.added.drop_last() =~= some.added);
            assert(!put_all(put_all(start.participants, some.added), some.updated).contains_key(
                p.user_id,
            ));
            lemma_put_earlier(put_all(start.participants, some.added), row, some.updated);
        } else if some.room.participants[p.user_id].sid != Some(p.sid) {
            assert(s.updated.drop_last() =~= some.updated);
        }
    }
}

/// A row of someone whom the later rows do not name can be put in before
/// them or after.
proof fn lemma_put_earlier(rows: Map<Uuid, ParticipantModel>, p: ParticipantModel, more: Seq<ParticipantModel>)
    requires
        !put_all(rows, more).contains_key(p.user_id),
    ensures
        put_all(rows.insert(p.user_id, p), more) == put_all(rows, more).insert(p.user_id, p),
    decreases more.len(),
{
    if more.len() > 0 {
        lemma_put_earlier(rows, p, more.drop_last());
        assert(put_all(rows.insert(p.user_id, p), more) =~= put_all(rows, more).insert(p.user_id, p));
    }
}

/// A track that is not put in is as it was.
proof fn lemma_put_others(rows: Map<Seq<char>, TrackModel>, more: Seq<TrackModel>, s: Seq<char>)
    requires
        forall|i: int| 0 <= i < more.len() ==> (#[trigger] more[i]).sid != s,
    ensures
        put_all_tracks(rows, more).contains_key(s) <==> rows.contains_key(s),
        put_all_tracks(rows, more)[s] == rows[s],
    decreases more.len(),
{
    if more.len() > 0 {
        let some = more.drop_last();
        assert forall|i: int| 0 <= i < some.len() implies (#[trigger] some[i]).sid != s by {
            assert(some[i] == more[i]);
        }
        assert(more[more.len() - 1].sid != s);
        lemma_put_others(rows, some, s);
    }
}

/// A track that is put in once is as it was put in.
proof fn lemma_put_this(rows: Map<Seq<char>, TrackModel>, more: Seq<TrackModel>, i: int)
    requires
        0 <= i < more.len(),
        forall|j: int| i < j < more.len() ==> (#[trigger] more[j]).sid != more[i].sid,
    ensures
        put_all_tracks(rows, more).contains_key(more[i].sid),
        put_all_tracks(rows, more)[more[i].sid] == more[i],
    decreases more.len(),
{
    if i < more.len() - 1 {
        let some = more.drop_last();
        assert(some[i] == more[i]);
        assert forall|j: int| i < j < some.len() implies (#[trigger] some[j]).sid != some[i].sid by {
            assert(some[j] == more[j]);
        }
        assert(more[more.len() - 1].sid != more[i].sid);
        lemma_put_this(rows, some, i);
    }
}

/// A room whose stale tracks are taken out, and whose new or different tracks
/// are put in, has the listed tracks.
proof fn lemma_tracks_told(
    base: Map<Seq<char>, TrackModel>,
    seated: RoomModel,
    listed: Map<Seq<char>, TrackModel>,
)
    requires
        listed.dom().finite(),
        forall|s: Seq<char>| #[trigger] listed.contains_key(s) ==> listed[s].sid == s,
        forall|s: Seq<char>| #[trigger] seated.tracks.contains_key(s) ==> seated.tracks[s].sid == s,
        forall|s: Seq<char>| #[trigger]
            base.contains_key(s) <==> seated.tracks.contains_key(s) && !seated.unlisted(listed).contains(s),
        forall|s: Seq<char>| #[trigger] base.contains_key(s) ==> base[s] == seated.tracks[s],
    ensures
        put_all_tracks(
            base,
            sorted_texts(seated.unsynced(listed)).map_values(
                |s: Seq<char>| seated.synced(listed).tracks[s],
            ),
        ) == seated.synced(listed).tracks,
{
    let synced = seated.synced(listed).tracks;
    let unsynced = seated.unsynced(listed);
    let sids = sorted_texts(unsynced);
    let added = sids.map_values(|s: Seq<char>| synced[s]);
    let lt = text_order();
    assert(unsynced.subset_of(listed.dom()));
    vstd::set_lib::lemma_set_subset_finite(listed.dom(), unsynced);
    lemma_text_order();
    lemma_listing_exists(unsynced, lt);
    assert forall|i: int| 0 <= i < added.len() implies (#[trigger] added[i]).sid == sids[i] && unsynced.contains(
        sids[i],
    ) by {
        assert(sids.contains(sids[i]));
        assert(unsynced.contains(sids[i]));
        assert(listed.contains_key(sids[i]));
        assert(seated.tracks.contains_key(sids[i]) ==> seated.tracks[sids[i]].sid == sids[i]);
    }
    let applied = put_all_tracks(base, added);
    assert forall|s: Seq<char>| #[trigger]
        applied.contains_key(s) == synced.contains_key(s) && (applied.contains_key(s) ==> applied[s]
            == synced[s]) by {
        if unsynced.contains(s) {
            assert(sids.contains(s));
            let i = choose|i: int| 0 <= i < sids.len() && sids[i] == s;
            assert(added[i].sid == s);
            assert forall|j: int| i < j < added.len() implies (#[trigger] added[j]).sid != added[i].sid by {
                assert(lt(sids[i], sids[j]));
            }
            lemma_put_this(base, added, i);
        } else {
            lemma_put_others(base, added, s);
            assert(base.contains_key(s) == synced.contains_key(s));
            if base.contains_key(s) {
                assert(synced[s] =~= base[s]);
            }
        }
    }
    assert(applied =~= synced);
}

/// What a reconciliation does is told exactly, whatever LiveKit lists.
pub proof fn law_reconciled_told(room: RoomModel, channel: Uuid, live: Seq<LiveParticipant>, now: Reading)
    requires
        room.valid(),
    ensures
        tells(room, room.reconciled(channel, live, now)),
{
    let outcome = room.reconciled(channel, live, now);
    let d = outcome.1;
    let gone = room.absent(live_users(live), now.mono);
    let kept = room.without_users(gone);
    let start = Seating { room: kept, added: Seq::empty(), updated: Seq::empty() };
    let seating = start.take_in_all(live, now);
    let seated = seating.room;
    let listed = by_sid(live_rows(live));
    let stale = seated.unlisted(listed);
    let owned = room.owned_by(gone);

    lemma_without_users_valid(room, gone);
    lemma_take_in_all(start, live, now);
    lemma_by_sid_finite(live_rows(live));
    assert(gone.subset_of(room.participants.dom()));
    vstd::set_lib::lemma_set_subset_finite(room.participants.dom(), gone);
    assert(owned.subset_of(room.tracks.dom()));
    vstd::set_lib::lemma_set_subset_finite(room.tracks.dom(), owned);
    assert(stale.subset_of(seated.tracks.dom()));
    vstd::set_lib::lemma_set_subset_finite(seated.tracks.dom(), stale);
    lemma_listed_ids(gone);
    lemma_listed_texts(owned);
    lemma_listed_texts(stale);

    // participants
    lemma_seating_told(kept, live, now);
    assert(room.participants.remove_keys(d.participants_removed.to_set()) =~= kept.participants);
    assert(room.known().applied(d).participants == outcome.0.participants);

    // tracks
    assert(d.tracks_removed.to_set() =~= owned.union(stale)) by {
        assert forall|s: Seq<char>| d.tracks_removed.to_set().contains(s) <==> owned.union(stale).contains(s) by {
            let a = sorted_texts(owned);
            let b = sorted_texts(stale);
            assert(a.to_set().contains(s) <==> a.contains(s));
            assert(b.to_set().contains(s) <==> b.contains(s));
            assert((a + b).contains(s) <==> a.contains(s) || b.contains(s)) by {
                if a.contains(s) {
                    let i = choose|i: int| 0 <= i < a.len() && a[i] == s;
                    assert((a + b)[i] == s);
                }
                if b.contains(s) {
                    let i = choose|i: int| 0 <= i < b.len() && b[i] == s;
                    assert((a + b)[a.len() + i] == s);
                }
                if (a + b).contains(s) {
                    let i = choose|i: int| 0 <= i < (a + b).len() && (a + b)[i] == s;
                    if i < a.len() {
                        assert(a[i] == s);
                    } else {
                        assert(b[i - a.len()] == s);
                    }
                }
            }
        }
    }
    let base = room.tracks.remove_keys(d.tracks_removed.to_set());
    assert forall|s: Seq<char>| #[trigger] listed.contains_key(s) implies listed[s].sid == s by {
        let _ = lemma_by_sid_row(live_rows(live), s);
    }
    assert(seated.tracks == kept.tracks);
    lemma_tracks_told(base, seated, listed);
    assert(room.known().applied(d).tracks == outcome.0.tracks);
    assert(room.known().applied(d) =~= outcome.0.known());
}

/// A client that knows the room, and receives what is told of it, knows the
/// room that came of it.
pub proof fn law_client_keeps_step(room: RoomModel, outcome: Outcome)
    requires
        tells(room, outcome),
    ensures
        room.known().receives(outcome.1) == Reception::Applied(outcome.0.known()),
{
}

/// A change that a client has applied is ignored when it comes again.
pub proof fn law_redelivered_change_ignored(room: RoomModel, outcome: Outcome)
    requires
        tells(room, outcome),
        outcome.1.version_before < outcome.1.version_after,
    ensures
        outcome.0.known().receives(outcome.1) is Ignored,
{
}

/// A client that missed a change notices at the next one.
pub proof fn law_missed_change_noticed(room: RoomModel, missed: Outcome, next: Outcome)
    requires
        tells(room, missed),
        missed.1.version_before < missed.1.version_after,
        tells(missed.0, next),
        next.1.version_before < next.1.version_after,
    ensures
        room.known().receives(next.1) is Gap,
{
}

} // verus!
