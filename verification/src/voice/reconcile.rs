//! Holding a room to what LiveKit lists, and to the clock.

use vstd::prelude::*;

use crate::clock::{has_aged, Reading};
use crate::ident::{Uuid, MUSIC_BOT_ID};
use crate::listing::{
    id_order, increasing, lemma_listing_exists, lemma_pick, lemma_picked, lemma_text_order, lists,
    picks, sorted_ids, sorted_keys, sorted_texts, text_order,
};
use crate::text::{same_text, texts};
use crate::voice::model::{
    by_sid, live_rows, live_users, LiveParticipant, LiveTrack, RoomModel, Seating, TrackModel,
};
use crate::voice::room::{is_session, new_row, VoiceRoom};
use crate::voice::tracks::TrackTable;
use crate::voice::types::{
    participant_rows, track_rows, ChangeReason, ChannelId, ReconciledParticipant, RoomChange, TrackSid,
    TrackSource, UserId, VoiceParticipant, VoiceTrack, PROVISIONAL_TTL,
};

verus! {

broadcast use vstd::std_specs::hash::group_hash_axioms;

impl View for ReconciledParticipant {
    type V = LiveParticipant;

    open spec fn view(&self) -> LiveParticipant {
        LiveParticipant {
            user_id: self.user_id,
            sid: self.sid@,
            tracks: Seq::new(
                self.tracks@.len(),
                |i: int|
                    LiveTrack {
                        sid: self.tracks@[i].0@,
                        source: self.tracks@[i].1,
                        muted: self.tracks@[i].2,
                    },
            ),
        }
    }
}

/// A list of participants as LiveKit gives it.
pub open spec fn live_list(s: Seq<ReconciledParticipant>) -> Seq<LiveParticipant> {
    Seq::new(s.len(), |i: int| s[i]@)
}

/// Is `user_id` in the list?
pub fn is_listed(live: &Vec<ReconciledParticipant>, user_id: UserId) -> (r: bool)
    ensures
        r == live_users(live_list(live@)).contains(user_id),
{
    for i in 0..live.len()
        invariant
            forall|j: int| 0 <= j < i ==> (#[trigger] live@[j]).user_id != user_id,
    {
        if live[i].user_id == user_id {
            assert(live_list(live@)[i as int].user_id == user_id);
            return true;
        }
    }
    assert forall|j: int| 0 <= j < live@.len() implies (#[trigger] live_list(live@)[j]).user_id != user_id by {
        assert(live@[j].user_id != user_id);
    }
    false
}

/// The tracks of a list of participants, by SID. Where a SID comes twice, the
/// later one counts.
pub fn listed_tracks(live: &Vec<ReconciledParticipant>) -> (r: TrackTable)
    ensures
        r.wf(),
        r@ == by_sid(live_rows(live_list(live@))),
{
    let mut table: TrackTable = TrackTable::new();
    let ghost list = live_list(live@);
    for i in 0..live.len()
        invariant
            list == live_list(live@),
            table.wf(),
            table@ == by_sid(live_rows(list.take(i as int))),
    {
        let p: &ReconciledParticipant = &live[i];
        let ghost before = live_rows(list.take(i as int));
        assert(before + p@.rows().take(0) =~= before);
        for k in 0..p.tracks.len()
            invariant
                table.wf(),
                table@ == by_sid(before + p@.rows().take(k as int)),
        {
            let track: VoiceTrack = VoiceTrack {
                sid: p.tracks[k].0.clone(),
                owner: p.user_id,
                owner_sid: Some(p.sid.clone()),
                source: p.tracks[k].1,
                muted: p.tracks[k].2,
            };
            proof {
                let some = before + p@.rows().take(k as int);
                let more = before + p@.rows().take(k + 1);
                assert(track@ =~= p@.rows()[k as int]);
                assert(more =~= some.push(track@));
                assert(more.drop_last() =~= some);
            }
            table.insert(track);
        }
        proof {
            assert(p@.rows().take(p.tracks@.len() as int) =~= p@.rows());
            assert(list.take(i + 1).drop_last() =~= list.take(i as int));
            assert(list.take(i + 1).last() == p@);
        }
    }
    assert(list.take(live@.len() as int) =~= list);
    table
}

impl VoiceRoom {
    /// How many people count toward the capacity.
    pub fn human_count(&self) -> (r: usize)
        ensures
            r == self@.human_count(),
    {
        let keys: Vec<Uuid> = sorted_keys(&self.participants);
        let mut out: Vec<UserId> = Vec::new();
        let ghost p = |u: Uuid| self@.participants[u].is_counted();
        for i in 0..keys.len()
            invariant
                increasing(keys@, id_order()),
                picks(out@, keys@, i as int, p, id_order()),
                p == (|u: Uuid| self@.participants[u].is_counted()),
                forall|j: int| 0 <= j < keys@.len() ==> self.participants@.contains_key(#[trigger] keys@[j]),
        {
            proof {
                lemma_pick(out@, keys@, i as int, p, id_order());
            }
            if let Some(row) = self.participants.get(&keys[i]) {
                if !row.is_bot && !row.is_provisional() {
                    out.push(keys[i]);
                }
            }
        }
        proof {
            assert(self.participants@.dom() =~= self@.participants.dom());
            lemma_picked(out@, keys@, self@.participants.dom(), p, id_order());
            assert(out@.no_duplicates()) by {
                let lt = id_order();
                assert forall|i: int, j: int| 0 <= i < j < out@.len() implies out@[i] != out@[j] by {
                    assert(lt(out@[i], out@[j]));
                }
            }
            out@.unique_seq_to_set();
        }
        out.len()
    }

    /// Reports that everyone and everything goes.
    pub fn closed(&self, channel_id: ChannelId, reason: ChangeReason) -> (r: RoomChange)
        requires
            self.wf(),
            self.version < u64::MAX,
        ensures
            r@ == self@.closed(channel_id, reason).1,
    {
        let mut change: RoomChange = RoomChange::quiet(channel_id, self.version, reason);
        change.version_after = self.version + 1;
        change.participants_removed = sorted_keys(&self.participants);
        change.tracks_removed = self.tracks.keys();
        proof {
            assert(self.participants@.dom() =~= self@.participants.dom());
            assert(change@ =~= self@.closed(channel_id, reason).1);
        }
        change
    }

    /// Who has been provisional for too long, in order.
    pub fn expired_users(&self, now: i128) -> (r: Vec<UserId>)
        ensures
            r@.to_set() == self@.expired_at(now),
            r@ == sorted_ids(self@.expired_at(now)),
    {
        let keys: Vec<Uuid> = sorted_keys(&self.participants);
        let mut out: Vec<UserId> = Vec::new();
        let ghost p = |u: Uuid| self@.participants[u].has_expired(now);
        for i in 0..keys.len()
            invariant
                increasing(keys@, id_order()),
                picks(out@, keys@, i as int, p, id_order()),
                p == (|u: Uuid| self@.participants[u].has_expired(now)),
                forall|j: int| 0 <= j < keys@.len() ==> self.participants@.contains_key(#[trigger] keys@[j]),
        {
            proof {
                lemma_pick(out@, keys@, i as int, p, id_order());
            }
            if let Some(row) = self.participants.get(&keys[i]) {
                if has_expired(row, now) {
                    out.push(keys[i]);
                }
            }
        }
        proof {
            assert(self.participants@.dom() =~= self@.participants.dom());
            lemma_picked(out@, keys@, self@.participants.dom(), p, id_order());
        }
        out
    }

    /// Who is in the room but not in the list, and was confirmed or has been
    /// provisional for too long, in order.
    pub fn absent_users(&self, live: &Vec<ReconciledParticipant>, now: i128) -> (r: Vec<UserId>)
        ensures
            r@.to_set() == self@.absent(live_users(live_list(live@)), now),
            r@ == sorted_ids(self@.absent(live_users(live_list(live@)), now)),
    {
        let keys: Vec<Uuid> = sorted_keys(&self.participants);
        let mut out: Vec<UserId> = Vec::new();
        let ghost listed = live_users(live_list(live@));
        let ghost p = |u: Uuid|
            !listed.contains(u) && (self@.participants[u].provisional_since is None
                || self@.participants[u].has_expired(now));
        for i in 0..keys.len()
            invariant
                increasing(keys@, id_order()),
                picks(out@, keys@, i as int, p, id_order()),
                listed == live_users(live_list(live@)),
                p == (|u: Uuid|
                    !listed.contains(u) && (self@.participants[u].provisional_since is None
                        || self@.participants[u].has_expired(now))),
                forall|j: int| 0 <= j < keys@.len() ==> self.participants@.contains_key(#[trigger] keys@[j]),
        {
            proof {
                lemma_pick(out@, keys@, i as int, p, id_order());
            }
            let listed_here: bool = is_listed(live, keys[i]);
            if let Some(row) = self.participants.get(&keys[i]) {
                if !listed_here && (row.provisional_since.is_none() || has_expired(row, now)) {
                    out.push(keys[i]);
                }
            }
        }
        proof {
            assert(self.participants@.dom() =~= self@.participants.dom());
            lemma_picked(out@, keys@, self@.participants.dom(), p, id_order());
        }
        out
    }
}

/// What becomes of the track `sid` of a room that has `tracks`, where
/// `listed` lists it: it is as listed, unless it is a music row.
pub open spec fn synced_row(
    tracks: Map<Seq<char>, TrackModel>,
    listed: Map<Seq<char>, TrackModel>,
    sid: Seq<char>,
) -> TrackModel {
    if tracks.contains_key(sid) && tracks[sid].source == TrackSource::Music {
        tracks[sid]
    } else {
        listed[sid]
    }
}

/// Are these the rows of one track, the same in all that they say?
fn same_track(a: &VoiceTrack, b: &VoiceTrack) -> (r: bool)
    ensures
        r == (a@ == b@),
{
    let same_session: bool = match (&a.owner_sid, &b.owner_sid) {
        (Some(x), Some(y)) => same_text(x.as_str(), y.as_str()),
        (None, None) => true,
        _ => false,
    };
    let r: bool = same_session && same_text(a.sid.as_str(), b.sid.as_str()) && a.owner == b.owner && a.source
        == b.source && a.muted == b.muted;
    assert(r ==> a@ =~= b@);
    r
}

/// Is `s` one of the first `n` items?
spec fn among(sids: Seq<Seq<char>>, n: int, s: Seq<char>) -> bool {
    exists|j: int| 0 <= j < n && #[trigger] sids[j] == s
}

impl VoiceRoom {
    /// Takes in a list of participants. Reports the rows of the newcomers and
    /// those of participants with another session.
    fn take_in_all(&mut self, live: &Vec<ReconciledParticipant>, now: Reading) -> (r: (
        Vec<VoiceParticipant>,
        Vec<VoiceParticipant>,
    ))
        requires
            old(self).wf(),
            old(self)@.valid(),
        ensures
            final(self).wf(),
            final(self).version == old(self).version,
            final(self).tracks == old(self).tracks,
            (Seating {
                room: final(self)@,
                added: participant_rows(r.0@),
                updated: participant_rows(r.1@),
            }) == (Seating {
                room: old(self)@,
                added: Seq::empty(),
                updated: Seq::empty(),
            }).take_in_all(live_list(live@), now),
    {
        let mut added: Vec<VoiceParticipant> = Vec::new();
        let mut updated: Vec<VoiceParticipant> = Vec::new();
        let ghost start = Seating { room: self@, added: Seq::empty(), updated: Seq::empty() };
        let ghost list = live_list(live@);
        proof {
            assert(participant_rows(added@) =~= Seq::empty());
            assert(participant_rows(updated@) =~= Seq::empty());
            assert(list.take(0).len() == 0);
        }
        for i in 0..live.len()
            invariant
                list == live_list(live@),
                self.wf(),
                self.version == old(self).version,
                self.tracks == old(self).tracks,
                forall|u: Uuid| #[trigger]
                    self@.participants.contains_key(u) ==> self@.participants[u].user_id == u,
                (Seating {
                    room: self@,
                    added: participant_rows(added@),
                    updated: participant_rows(updated@),
                }) == start.take_in_all(list.take(i as int), now),
        {
            let p: &ReconciledParticipant = &live[i];
            let ghost some = Seating {
                room: self@,
                added: participant_rows(added@),
                updated: participant_rows(updated@),
            };
            proof {
                assert(list.take(i + 1).drop_last() =~= list.take(i as int));
                assert(list.take(i + 1).last() == p@);
            }
            let row: Option<VoiceParticipant> = match self.participants.get(&p.user_id) {
                Some(row) => Some(row.clone()),
                None => None,
            };
            let ghost added_before = added@;
            let ghost updated_before = updated@;
            match row {
                None => {
                    let fresh: VoiceParticipant = new_row(
                        p.user_id,
                        Some(p.sid.clone()),
                        p.user_id == MUSIC_BOT_ID,
                        now,
                    );
                    added.push(fresh.clone());
                    self.put(fresh);
                    assert(participant_rows(added@) =~= participant_rows(added_before).push(fresh@));
                },
                Some(row) => {
                    if !is_session(&row.sid, p.sid.as_str()) {
                        let mut confirmed: VoiceParticipant = row;
                        confirmed.sid = Some(p.sid.clone());
                        confirmed.provisional_since = None;
                        assert(confirmed@ =~= some.room.participants[p.user_id].confirmed(p@.sid));
                        updated.push(confirmed.clone());
                        self.put(confirmed);
                        assert(participant_rows(updated@) =~= participant_rows(updated_before).push(
                            confirmed@,
                        ));
                    }
                },
            }
            assert((Seating {
                room: self@,
                added: participant_rows(added@),
                updated: participant_rows(updated@),
            }) =~= some.take_in(p@, now));
        }
        assert(list.take(live@.len() as int) =~= list);
        (added, updated)
    }

    /// Puts the listed tracks in, each as it is listed. A music row is left
    /// alone. Reports the rows that are new or were otherwise.
    fn take_in_tracks(&mut self, listed: &TrackTable) -> (r: Vec<VoiceTrack>)
        requires
            old(self).wf(),
            listed.wf(),
        ensures
            final(self).wf(),
            final(self).version == old(self).version,
            final(self).participants == old(self).participants,
            final(self).reconciled_at == old(self).reconciled_at,
            forall|s: Seq<char>| #[trigger]
                final(self).tracks@.contains_key(s) <==> old(self).tracks@.contains_key(s)
                    || listed@.contains_key(s),
            forall|s: Seq<char>| #[trigger]
                final(self).tracks@.contains_key(s) ==> final(self).tracks@[s] == (if listed@.contains_key(s) {
                    synced_row(old(self).tracks@, listed@, s)
                } else {
                    old(self).tracks@[s]
                }),
            track_rows(r@) == sorted_texts(old(self)@.unsynced(listed@)).map_values(
                |s: Seq<char>| synced_row(old(self).tracks@, listed@, s),
            ),
    {
        let mut added: Vec<VoiceTrack> = Vec::new();
        let rows: &Vec<VoiceTrack> = listed.values();
        let ghost base = self.tracks@;
        let ghost sids = sorted_texts(listed@.dom());
        let ghost p = |s: Seq<char>|
            !(base.contains_key(s) && base[s].source == TrackSource::Music) && (!base.contains_key(s)
                || base[s] != listed@[s]);
        let ghost want = |s: Seq<char>| synced_row(base, listed@, s);
        let ghost mut picked: Seq<Seq<char>> = Seq::empty();
        proof {
            listed.lemma_table();
            self.tracks.lemma_table();
            lemma_text_order();
            lemma_listing_exists(listed@.dom(), text_order());
            assert(track_rows(added@) =~= picked.map_values(want));
        }
        for i in 0..rows.len()
            invariant
                self.wf(),
                listed.wf(),
                self.version == old(self).version,
                self.participants == old(self).participants,
                self.reconciled_at == old(self).reconciled_at,
                base == old(self).tracks@,
                sids == sorted_texts(listed@.dom()),
                lists(sids, listed@.dom(), text_order()),
                forall|s: Seq<char>| #[trigger] listed@.contains_key(s) ==> listed@[s].sid == s,
                forall|s: Seq<char>| #[trigger] base.contains_key(s) ==> base[s].sid == s,
                track_rows(rows@) == sids.map_values(|s: Seq<char>| listed@[s]),
                p == (|s: Seq<char>|
                    !(base.contains_key(s) && base[s].source == TrackSource::Music) && (!base.contains_key(s)
                        || base[s] != listed@[s])),
                want == (|s: Seq<char>| synced_row(base, listed@, s)),
                picks(picked, sids, i as int, p, text_order()),
                track_rows(added@) == picked.map_values(want),
                forall|s: Seq<char>| #[trigger]
                    self.tracks@.contains_key(s) <==> base.contains_key(s) || among(sids, i as int, s),
                forall|s: Seq<char>| #[trigger]
                    self.tracks@.contains_key(s) ==> self.tracks@[s] == (if among(sids, i as int, s) {
                        synced_row(base, listed@, s)
                    } else {
                        base[s]
                    }),
        {
            let track: &VoiceTrack = &rows[i];
            let ghost s0 = sids[i as int];
            let ghost before = self.tracks@;
            let ghost added_before = added@;
            let ghost picked_before = picked;
            proof {
                assert(track_rows(rows@).len() == sids.len());
                assert(track_rows(rows@)[i as int] == track@);
                assert(sids.contains(s0));
                assert(listed@.contains_key(s0));
                assert(track@ == listed@[s0]);
                assert(!(among(sids, i as int, s0))) by {
                    if among(sids, i as int, s0) {
                        let j = choose|j: int| 0 <= j < i && #[trigger] sids[j] == s0;
                        let lt = text_order();
                        assert(lt(sids[j], sids[i as int]));
                        lemma_text_order();
                    }
                }
                assert(before.contains_key(s0) <==> base.contains_key(s0));
                assert(before.contains_key(s0) ==> before[s0] == base[s0]);
                lemma_pick(picked, sids, i as int, p, text_order());
            }
            let known: Option<VoiceTrack> = match self.tracks.get(track.sid.as_str()) {
                Some(local) => Some(local.clone()),
                None => None,
            };
            match known {
                None => {
                    added.push(track.clone());
                    self.tracks.insert(track.clone());
                    proof {
                        assert(self.tracks@ =~= before.insert(s0, listed@[s0]));
                        picked = picked.push(s0);
                        assert(track_rows(added@) =~= track_rows(added_before).push(track@));
                    }
                },
                Some(local) => {
                    if local.source != TrackSource::Music && !same_track(&local, track) {
                        added.push(track.clone());
                        self.tracks.insert(track.clone());
                        proof {
                            picked = picked.push(s0);
                            assert(track_rows(added@) =~= track_rows(added_before).push(track@));
                        }
                    } else {
                        assert(self.tracks@ =~= before.insert(s0, synced_row(base, listed@, s0)));
                    }
                },
            }
            proof {
                assert(track_rows(added@) =~= picked.map_values(want));
                assert(self.tracks@ =~= before.insert(s0, synced_row(base, listed@, s0)));
                assert forall|s: Seq<char>| #[trigger] among(sids, i + 1, s) <==> s == s0 || among(sids, i as int, s) by {
                    if s == s0 {
                        assert(sids[i as int] == s);
                    }
                    if among(sids, i + 1, s) {
                        let j = choose|j: int| 0 <= j < i + 1 && #[trigger] sids[j] == s;
                        assert(j < i || s == s0);
                    }
                }
                assert forall|s: Seq<char>| #[trigger]
                    self.tracks@.contains_key(s) <==> base.contains_key(s) || among(sids, i + 1, s) by {
                    assert(before.contains_key(s) <==> base.contains_key(s) || among(sids, i as int, s));
                }
                assert forall|s: Seq<char>| #[trigger]
                    self.tracks@.contains_key(s) implies self.tracks@[s] == (if among(sids, i + 1, s) {
                        synced_row(base, listed@, s)
                    } else {
                        base[s]
                    }) by {
                    if s != s0 {
                        assert(before.contains_key(s));
                    }
                }
            }
        }
        proof {
            assert(rows@.len() == sids.len()) by {
                assert(track_rows(rows@).len() == sids.map_values(|s: Seq<char>| listed@[s]).len());
            }
            assert forall|s: Seq<char>| #[trigger] listed@.contains_key(s) <==> among(sids, sids.len() as int, s) by {
                if listed@.contains_key(s) {
                    assert(listed@.dom().contains(s));
                    assert(sids.contains(s));
                }
                if among(sids, sids.len() as int, s) {
                    assert(sids.contains(s));
                }
            }
            lemma_picked(picked, sids, listed@.dom(), p, text_order());
            assert(old(self)@.unsynced(listed@) =~= listed@.dom().filter(p));
            assert(picked.map_values(want) =~= sorted_texts(old(self)@.unsynced(listed@)).map_values(
                |s: Seq<char>| synced_row(old(self).tracks@, listed@, s),
            ));
        }
        added
    }

    /// LiveKit lists `live` as all that is in the room. Mute, deafen, `is_bot`
    /// and `joined_at` of those who stay are kept, and so is the music row:
    /// only this server knows them.
    pub fn reconciled(&mut self, channel_id: ChannelId, live: &Vec<ReconciledParticipant>, now: Reading) -> (r:
        RoomChange)
        requires
            old(self).wf(),
            old(self)@.valid(),
            old(self).version < u64::MAX,
        ensures
            final(self).wf(),
            (final(self)@, r@) == old(self)@.reconciled(channel_id, live_list(live@), now),
    {
        let ghost before = self@;
        let ghost list = live_list(live@);
        let mut change: RoomChange = RoomChange::quiet(
            channel_id,
            self.version,
            ChangeReason::ReconcileAdded,
        );
        let gone: Vec<UserId> = self.absent_users(live, now.mono);
        let ghost gone_set = gone@.to_set();
        let mut tracks_removed: Vec<TrackSid> = self.drop_users(&gone);
        proof {
            lemma_without_users_valid(before, gone_set);
        }
        let (added, updated) = self.take_in_all(live, now);
        let ghost seated = self@;
        let listed: TrackTable = listed_tracks(live);
        let mut stale: Vec<TrackSid> = self.tracks.stale(&listed);
        let ghost stale_set = seated.unlisted(listed@);
        proof {
            assert(stale_set =~= self.tracks@.dom().filter(
                |s: Seq<char>|
                    self.tracks@[s].source != TrackSource::Music && !listed@.contains_key(s),
            ));
            self.tracks.lemma_table();
            lemma_text_order();
            lemma_listing_exists(stale_set, text_order());
            assert(texts(stale@).to_set() =~= stale_set) by {
                assert forall|s: Seq<char>| texts(stale@).to_set().contains(s) <==> stale_set.contains(s) by {
                    assert(texts(stale@).contains(s) <==> stale_set.contains(s));
                }
            }
        }
        self.tracks.remove_all(&stale);
        let ghost kept = self@;
        let tracks_added: Vec<VoiceTrack> = self.take_in_tracks(&listed);
        let ghost owned_texts = texts(tracks_removed@);
        let ghost stale_texts = texts(stale@);
        tracks_removed.append(&mut stale);
        let touched: bool = added.len() > 0 || updated.len() > 0 || gone.len() > 0 || tracks_added.len() > 0
            || tracks_removed.len() > 0;
        if touched {
            change.version_after = self.bump();
        }
        self.reconciled_at = Some(now.mono);
        change.participants_added = added;
        change.participants_updated = updated;
        change.participants_removed = gone;
        change.tracks_added = tracks_added;
        change.tracks_removed = tracks_removed;
        proof {
            let want = before.reconciled(channel_id, list, now);
            let room = seated.synced(listed@);
            assert(texts(tracks_removed@) =~= owned_texts + stale_texts);
            assert(kept.unsynced(listed@) =~= seated.unsynced(listed@)) by {
                assert forall|s: Seq<char>| listed@.contains_key(s) implies (kept.tracks.contains_key(s)
                    <==> seated.tracks.contains_key(s)) by {
                    assert(!stale_set.contains(s));
                }
            }
            let unsynced = seated.unsynced(listed@);
            lemma_by_sid_finite(live_rows(list));
            lemma_listing_exists(unsynced, text_order());
            assert(track_rows(tracks_added@) =~= sorted_texts(unsynced).map_values(
                |s: Seq<char>| room.tracks[s],
            )) by {
                let sids = sorted_texts(unsynced);
                assert forall|i: int| 0 <= i < sids.len() implies #[trigger] track_rows(tracks_added@)[i]
                    == room.tracks[sids[i]] by {
                    assert(sids.contains(sids[i]));
                    assert(unsynced.contains(sids[i]));
                    assert(!stale_set.contains(sids[i]));
                    assert(synced_row(kept.tracks, listed@, sids[i]) =~= room.tracks[sids[i]]);
                }
            }
            assert(self@.tracks =~= room.tracks) by {
                assert forall|s: Seq<char>| #[trigger] self@.tracks.contains_key(s) <==> room.tracks.contains_key(s) by {
                    assert(stale_set.contains(s) <==> seated.tracks.contains_key(s)
                        && seated.tracks[s].source != TrackSource::Music && !listed@.contains_key(s));
                }
                assert forall|s: Seq<char>| #[trigger] self@.tracks.contains_key(s) implies self@.tracks[s]
                    == room.tracks[s] by {
                    assert(!stale_set.contains(s) || listed@.contains_key(s));
                }
            }
            assert(self@ =~= want.0);
            assert(change@ =~= want.1);
        }
        change
    }
}

/// Rows are finitely many.
pub proof fn lemma_by_sid_finite(rows: Seq<TrackModel>)
    ensures
        by_sid(rows).dom().finite(),
    decreases rows.len(),
{
    if rows.len() > 0 {
        lemma_by_sid_finite(rows.drop_last());
        let some = by_sid(rows.drop_last());
        assert(by_sid(rows).dom() =~= some.dom().insert(rows.last().sid));
    }
}

/// A room stays valid when users leave it with their tracks.
pub proof fn lemma_without_users_valid(room: RoomModel, users: Set<Uuid>)
    requires
        room.valid(),
    ensures
        room.without_users(users).valid(),
{
    let after = room.without_users(users);
    let gone = room.owned_by(users);
    assert(after.participants.dom() =~= room.participants.dom().difference(users));
    assert(after.tracks.dom() =~= room.tracks.dom().difference(gone));
    assert forall|s: Seq<char>| #[trigger] after.tracks.contains_key(s) implies after.tracks[s].sid == s && (
    after.participants.contains_key(after.tracks[s].owner) || (after.tracks[s].owner == MUSIC_BOT_ID
        && after.tracks[s].source == TrackSource::Music)) by {
        assert(room.tracks.contains_key(s));
        assert(!gone.contains(s));
    }
}

/// Has the row been provisional for too long?
pub fn has_expired(row: &VoiceParticipant, now: i128) -> (r: bool)
    ensures
        r == row@.has_expired(now),
{
    match row.provisional_since {
        Some(since) => has_aged(now, since, PROVISIONAL_TTL),
        None => false,
    }
}

} // verus!
