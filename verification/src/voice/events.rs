//! What LiveKit says, applied to the registry. These are the operations with
//! authority over confirmed presence.

use std::collections::HashSet;

use vstd::prelude::*;

use crate::clock::Reading;
use crate::ident::Uuid;
use crate::listing::{
    id_order, increasing, lemma_pick, lemma_picked, lemma_push_contains, lists, picks, sorted_ids,
};
use crate::text::{copy_optional, optional_text};
use crate::voice::model::reported;
use crate::voice::reconcile::live_list;
use crate::voice::registry::{change_list, lemma_change_list_push, VoiceRegistry};
use crate::voice::room::VoiceRoom;
use crate::voice::types::{
    ChangeReason, ChannelId, ParticipantSid, ReconciledParticipant, RoomChange, TrackSid,
    TrackSource, UserId,
};
use crate::voice::validity::{
    lemma_closed_valid, lemma_evicted_valid, lemma_joined_valid, lemma_left_valid,
    lemma_opened_valid, lemma_published_valid, lemma_put_back, lemma_put_back_settled,
    lemma_reconciled_valid, lemma_settle_none, lemma_settle_one_more, lemma_settled_all_valid,
    lemma_settled_valid, lemma_stored_valid, lemma_track_muted_valid, lemma_unpublished_valid,
};

verus! {

impl VoiceRegistry {
    /// Puts a participant in, or confirms one. A provisional row of the same
    /// user is confirmed, not doubled.
    pub fn webhook_participant_joined(&mut self, channel_id: ChannelId, user_id: UserId, sid: ParticipantSid) -> (r:
        RoomChange)
        requires
            old(self).wf(),
            old(self)@.can_count(channel_id),
        ensures
            final(self).wf(),
            final(self).clock() == old(self).clock(),
            exists|now: Reading|
                now.is_plausible() && (final(self)@, r@) == #[trigger] old(self)@.joined(channel_id, user_id, sid@, now),
    {
        let now: Reading = self.read_clock();
        self.webhook_participant_joined_at(channel_id, user_id, sid, now)
    }

    /// `webhook_participant_joined`, at a given moment.
    pub fn webhook_participant_joined_at(
        &mut self,
        channel_id: ChannelId,
        user_id: UserId,
        sid: ParticipantSid,
        now: Reading,
    ) -> (r: RoomChange)
        requires
            old(self).wf(),
            old(self)@.can_count(channel_id),
        ensures
            final(self).wf(),
            final(self).clock() == old(self).clock(),
            (final(self)@, r@) == old(self)@.joined(channel_id, user_id, sid@, now),
    {
        let ghost before = self@;
        proof {
            lemma_opened_valid(before, channel_id);
            lemma_joined_valid(before.opened(channel_id), channel_id, user_id, sid@, now);
            lemma_stored_valid(
                before,
                channel_id,
                before.opened(channel_id).joined(channel_id, user_id, sid@, now).0,
            );
        }
        let mut room: VoiceRoom = self.open_room(channel_id);
        let change: RoomChange = room.joined(channel_id, user_id, sid, now);
        proof {
            lemma_put_back(before, channel_id, room@);
        }
        self.put_room(channel_id, room);
        change
    }

    /// The other channels that `user_id` is in, in order.
    fn elsewhere(&self, channel_id: ChannelId, user_id: UserId) -> (r: Vec<ChannelId>)
        ensures
            r@ == sorted_ids(self@.elsewhere(channel_id, user_id)),
            lists(r@, self@.elsewhere(channel_id, user_id), id_order()),
    {
        let keys: Vec<ChannelId> = self.all_channel_ids();
        let mut out: Vec<ChannelId> = Vec::new();
        let ghost p = |c: Uuid| c != channel_id && self@.rooms[c].participants.contains_key(user_id);
        for i in 0..keys.len()
            invariant
                increasing(keys@, id_order()),
                picks(out@, keys@, i as int, p, id_order()),
                p == (|c: Uuid|
                    c != channel_id && self@.rooms[c].participants.contains_key(user_id)),
                lists(keys@, self@.rooms.dom(), id_order()),
        {
            proof {
                lemma_pick(out@, keys@, i as int, p, id_order());
                assert(keys@.contains(keys@[i as int]));
                assert(self@.rooms.dom().contains(keys@[i as int]));
            }
            if keys[i] != channel_id && self.is_participant(keys[i], user_id) {
                out.push(keys[i]);
            }
        }
        proof {
            lemma_picked(out@, keys@, self@.rooms.dom(), p, id_order());
            assert(self@.elsewhere(channel_id, user_id) =~= self@.rooms.dom().filter(p));
        }
        out
    }

    /// Is there room to count that `user_id` joins a channel, and leaves every
    /// other?
    pub fn can_move(&self, channel_id: ChannelId, user_id: UserId) -> (r: bool)
        ensures
            r == self@.can_move(channel_id, user_id),
    {
        let others: Vec<ChannelId> = self.elsewhere(channel_id, user_id);
        for i in 0..others.len()
            invariant
                lists(others@, self@.elsewhere(channel_id, user_id), id_order()),
                forall|j: int| 0 <= j < i ==> self@.can_count(#[trigger] others@[j]),
        {
            if !self.can_count(others[i]) {
                assert(others@.contains(others@[i as int]));
                assert(self@.elsewhere(channel_id, user_id).contains(others@[i as int]));
                return false;
            }
        }
        proof {
            assert forall|c: Uuid| #[trigger] self@.elsewhere(channel_id, user_id).contains(c) implies self@.can_count(
                c,
            ) by {
                assert(others@.contains(c));
            }
        }
        self.can_count(channel_id)
    }

    /// Takes `user_id` out of every channel but `channel_id`, and reports each
    /// in the order of the channels.
    fn evict(&mut self, channel_id: ChannelId, user_id: UserId) -> (r: Vec<RoomChange>)
        requires
            old(self).wf(),
            old(self)@.can_count_in(old(self)@.elsewhere(channel_id, user_id)),
        ensures
            final(self).wf(),
            final(self).clock() == old(self).clock(),
            final(self)@ == old(self)@.evicted(channel_id, user_id),
            change_list(r@) == old(self)@.evictions(channel_id, user_id),
    {
        let ghost before = self@;
        let ids: Vec<ChannelId> = self.elsewhere(channel_id, user_id);
        let mut changes: Vec<RoomChange> = Vec::new();
        let ghost f = |c: Uuid| before.rooms[c].evicted(c, user_id);
        let ghost g = |c: Uuid| reported(before.rooms[c].evicted(c, user_id));
        let ghost mut done: Set<Uuid> = Set::empty();
        proof {
            lemma_settle_none(before, f);
            assert(change_list(changes@) =~= ids@.take(0).map_values(g));
        }
        for i in 0..ids.len()
            invariant
                before == old(self)@,
                before.valid(),
                before.can_count_in(before.elsewhere(channel_id, user_id)),
                f == (|c: Uuid| before.rooms[c].evicted(c, user_id)),
                g == (|c: Uuid| reported(before.rooms[c].evicted(c, user_id))),
                lists(ids@, before.elsewhere(channel_id, user_id), id_order()),
                self.indexed(),
                self.clock() == old(self).clock(),
                self@ == before.settled_all(done, f),
                forall|c: Uuid| #[trigger] done.contains(c) <==> exists|j: int|
                    0 <= j < i && #[trigger] ids@[j] == c,
                change_list(changes@) == ids@.take(i as int).map_values(g),
        {
            let c: ChannelId = ids[i];
            let ghost middle = self@;
            proof {
                assert(ids@.contains(c));
                assert(before.elsewhere(channel_id, user_id).contains(c));
                assert(before.rooms.contains_key(c));
                let lt = id_order();
                assert(!done.contains(c)) by {
                    if done.contains(c) {
                        let j = choose|j: int| 0 <= j < i && #[trigger] ids@[j] == c;
                        assert(lt(ids@[j], ids@[i as int]));
                    }
                }
                assert(before.can_count(c));
                assert(middle.rooms.contains_key(c));
                assert(middle.rooms[c] == before.rooms[c]);
            }
            let mut room: VoiceRoom = self.open_room(c);
            let session: Option<ParticipantSid> = match room.participant(user_id) {
                Some(row) => copy_optional(&row.sid),
                None => None,
            };
            let mut change: RoomChange = match session {
                Some(sid) => room.left(c, user_id, sid.as_str()),
                None => {
                    let (change, _confirmed) = room.hint_left(c, user_id);
                    change
                },
            };
            proof {
                assert((room@, change@) == f(c));
            }
            self.settle_room(c, room, &mut change);
            let ghost some = changes@;
            changes.push(change);
            proof {
                lemma_put_back_settled(middle, c, f(c));
                lemma_settle_one_more(before, done, f, c);
                let prev = done;
                done = done.insert(c);
                assert forall|d: Uuid| #[trigger] done.contains(d) <==> exists|j: int|
                    0 <= j < i + 1 && #[trigger] ids@[j] == d by {
                    if done.contains(d) {
                        if d == c {
                            assert(ids@[i as int] == d);
                        } else {
                            assert(prev.contains(d));
                        }
                    }
                    if exists|j: int| 0 <= j < i + 1 && #[trigger] ids@[j] == d {
                        let j = choose|j: int| 0 <= j < i + 1 && #[trigger] ids@[j] == d;
                        if j < i {
                            assert(prev.contains(d));
                        }
                    }
                }
                lemma_change_list_push(some, change);
                assert(ids@.take(i + 1) =~= ids@.take(i as int).push(c));
                assert(change_list(changes@) =~= ids@.take(i + 1).map_values(g));
            }
        }
        proof {
            let all = before.elsewhere(channel_id, user_id);
            assert(done =~= all) by {
                assert forall|c: Uuid| done.contains(c) <==> all.contains(c) by {
                    assert(ids@.contains(c) <==> all.contains(c));
                    if all.contains(c) {
                        let j = choose|j: int| 0 <= j < ids@.len() && ids@[j] == c;
                        assert(ids@[j] == c);
                    }
                    if done.contains(c) {
                        let j = choose|j: int| 0 <= j < ids@.len() && #[trigger] ids@[j] == c;
                        assert(ids@.contains(c));
                    }
                }
            }
            assert(ids@.take(ids@.len() as int) =~= ids@);
            assert forall|c: Uuid| all.contains(c) implies (#[trigger] f(c)).0.valid() by {
                assert(before.rooms.contains_key(c));
                lemma_evicted_valid(before.rooms[c], c, user_id);
            }
            lemma_settled_all_valid(before, all, f);
        }
        changes
    }

    /// Applies a join while one identity occupies one channel only. The new
    /// room may hear of it before the old one does: the new join takes stale
    /// rows out of every other room, and every room that changed is reported.
    pub fn webhook_participant_joined_exclusive(
        &mut self,
        channel_id: ChannelId,
        user_id: UserId,
        sid: ParticipantSid,
    ) -> (r: Vec<RoomChange>)
        requires
            old(self).wf(),
            old(self)@.can_move(channel_id, user_id),
        ensures
            final(self).wf(),
            final(self).clock() == old(self).clock(),
            exists|now: Reading|
                now.is_plausible() && (final(self)@, change_list(r@)) == #[trigger] old(self)@.joined_exclusive(
                    channel_id,
                    user_id,
                    sid@,
                    now,
                ),
    {
        let now: Reading = self.read_clock();
        self.webhook_participant_joined_exclusive_at(channel_id, user_id, sid, now)
    }

    /// `webhook_participant_joined_exclusive`, at a given moment.
    pub fn webhook_participant_joined_exclusive_at(
        &mut self,
        channel_id: ChannelId,
        user_id: UserId,
        sid: ParticipantSid,
        now: Reading,
    ) -> (r: Vec<RoomChange>)
        requires
            old(self).wf(),
            old(self)@.can_move(channel_id, user_id),
        ensures
            final(self).wf(),
            final(self).clock() == old(self).clock(),
            (final(self)@, change_list(r@)) == old(self)@.joined_exclusive(
                channel_id,
                user_id,
                sid@,
                now,
            ),
    {
        let ghost before = self@;
        let mut changes: Vec<RoomChange> = self.evict(channel_id, user_id);
        proof {
            assert(before.can_count(channel_id));
            assert(!before.elsewhere(channel_id, user_id).contains(channel_id));
            assert(self@.counter(channel_id) == before.counter(channel_id));
        }
        let joined: RoomChange = self.webhook_participant_joined_at(channel_id, user_id, sid, now);
        if !joined.is_empty() {
            proof {
                lemma_change_list_push(changes@, joined);
            }
            changes.push(joined);
        }
        changes
    }

    /// Takes a participant out, only if `sid` is the session that its row has:
    /// the end of an older session says nothing of the current one.
    pub fn webhook_participant_left(&mut self, channel_id: ChannelId, user_id: UserId, sid: ParticipantSid) -> (r:
        RoomChange)
        requires
            old(self).wf(),
            old(self)@.can_count(channel_id),
        ensures
            final(self).wf(),
            final(self).clock() == old(self).clock(),
            (final(self)@, r@) == old(self)@.left(channel_id, user_id, sid@),
    {
        let ghost before = self@;
        match self.take_room(channel_id) {
            Some(taken) => {
                let mut room: VoiceRoom = taken;
                let mut change: RoomChange = room.left(channel_id, user_id, sid.as_str());
                proof {
                    let outcome = before.rooms[channel_id].left(channel_id, user_id, sid@);
                    lemma_left_valid(before.rooms[channel_id], channel_id, user_id, sid@);
                    lemma_settled_valid(before, channel_id, outcome);
                    lemma_put_back_settled(before, channel_id, outcome);
                }
                self.settle_room(channel_id, room, &mut change);
                change
            },
            None => {
                assert(self@.rooms =~= before.rooms);
                RoomChange::empty(channel_id, 0)
            },
        }
    }

    /// Puts a track in. The track may be heard of before its owner: an owner
    /// who is not in the room is put in, and confirmed when it joins.
    pub fn webhook_track_published(
        &mut self,
        channel_id: ChannelId,
        user_id: UserId,
        participant_sid: Option<ParticipantSid>,
        track_sid: TrackSid,
        source: TrackSource,
    ) -> (r: RoomChange)
        requires
            old(self).wf(),
            old(self)@.can_publish(channel_id, user_id),
        ensures
            final(self).wf(),
            final(self).clock() == old(self).clock(),
            exists|now: Reading|
                now.is_plausible() && (final(self)@, r@) == #[trigger] old(self)@.published(
                    channel_id,
                    user_id,
                    optional_text(participant_sid),
                    track_sid@,
                    source,
                    now,
                ),
    {
        let now: Reading = self.read_clock();
        self.webhook_track_published_at(channel_id, user_id, participant_sid, track_sid, source, now)
    }

    /// `webhook_track_published`, at a given moment.
    pub fn webhook_track_published_at(
        &mut self,
        channel_id: ChannelId,
        user_id: UserId,
        participant_sid: Option<ParticipantSid>,
        track_sid: TrackSid,
        source: TrackSource,
        now: Reading,
    ) -> (r: RoomChange)
        requires
            old(self).wf(),
            old(self)@.can_publish(channel_id, user_id),
        ensures
            final(self).wf(),
            final(self).clock() == old(self).clock(),
            (final(self)@, r@) == old(self)@.published(
                channel_id,
                user_id,
                optional_text(participant_sid),
                track_sid@,
                source,
                now,
            ),
    {
        let ghost before = self@;
        let ghost session = optional_text(participant_sid);
        let ghost sid = track_sid@;
        proof {
            let opened = before.opened(channel_id);
            lemma_opened_valid(before, channel_id);
            lemma_published_valid(opened, channel_id, user_id, session, sid, source, now);
            lemma_stored_valid(
                before,
                channel_id,
                opened.published(channel_id, user_id, session, sid, source, now).0,
            );
        }
        let mut room: VoiceRoom = self.open_room(channel_id);
        let change: RoomChange = room.published(
            channel_id,
            user_id,
            participant_sid,
            track_sid,
            source,
            now,
        );
        proof {
            lemma_put_back(before, channel_id, room@);
        }
        self.put_room(channel_id, room);
        change
    }

    /// Takes a track out by its SID. Nothing is searched by owner or source.
    pub fn webhook_track_unpublished(&mut self, channel_id: ChannelId, track_sid: &str) -> (r: RoomChange)
        requires
            old(self).wf(),
            old(self)@.can_count(channel_id),
        ensures
            final(self).wf(),
            final(self).clock() == old(self).clock(),
            (final(self)@, r@) == old(self)@.unpublished(channel_id, track_sid@),
    {
        let ghost before = self@;
        match self.take_room(channel_id) {
            Some(taken) => {
                let mut room: VoiceRoom = taken;
                let change: RoomChange = room.unpublished(channel_id, track_sid);
                proof {
                    lemma_unpublished_valid(before.rooms[channel_id], channel_id, track_sid@);
                    lemma_stored_valid(before, channel_id, room@);
                    lemma_put_back(before, channel_id, room@);
                }
                self.put_room(channel_id, room);
                change
            },
            None => {
                assert(self@.rooms =~= before.rooms);
                RoomChange::empty(channel_id, 0)
            },
        }
    }

    /// Marks a track muted, or not. The whole row is sent again.
    pub fn webhook_track_muted(&mut self, channel_id: ChannelId, track_sid: &str, muted: bool) -> (r: RoomChange)
        requires
            old(self).wf(),
            old(self)@.can_count(channel_id),
        ensures
            final(self).wf(),
            final(self).clock() == old(self).clock(),
            (final(self)@, r@) == old(self)@.track_muted(channel_id, track_sid@, muted),
    {
        let ghost before = self@;
        match self.take_room(channel_id) {
            Some(taken) => {
                let mut room: VoiceRoom = taken;
                let change: RoomChange = room.track_muted(channel_id, track_sid, muted);
                proof {
                    lemma_track_muted_valid(before.rooms[channel_id], channel_id, track_sid@, muted);
                    lemma_stored_valid(before, channel_id, room@);
                    lemma_put_back(before, channel_id, room@);
                }
                self.put_room(channel_id, room);
                change
            },
            None => {
                assert(self@.rooms =~= before.rooms);
                RoomChange::empty(channel_id, 0)
            },
        }
    }

    /// Makes the channel mirror what LiveKit lists. What only this server
    /// knows stays: mute, deafen, `is_bot`, `joined_at` and the music row.
    pub fn reconcile_room(&mut self, channel_id: ChannelId, participants: Vec<ReconciledParticipant>) -> (r:
        RoomChange)
        requires
            old(self).wf(),
            old(self)@.can_count(channel_id),
        ensures
            final(self).wf(),
            final(self).clock() == old(self).clock(),
            exists|now: Reading|
                now.is_plausible() && (final(self)@, r@) == #[trigger] old(self)@.reconciled(
                    channel_id,
                    live_list(participants@),
                    now,
                ),
    {
        let now: Reading = self.read_clock();
        self.reconcile_room_at(channel_id, &participants, now)
    }

    /// `reconcile_room`, at a given moment.
    pub fn reconcile_room_at(
        &mut self,
        channel_id: ChannelId,
        participants: &Vec<ReconciledParticipant>,
        now: Reading,
    ) -> (r: RoomChange)
        requires
            old(self).wf(),
            old(self)@.can_count(channel_id),
        ensures
            final(self).wf(),
            final(self).clock() == old(self).clock(),
            (final(self)@, r@) == old(self)@.reconciled(channel_id, live_list(participants@), now),
    {
        let ghost before = self@;
        let ghost live = live_list(participants@);
        proof {
            lemma_opened_valid(before, channel_id);
        }
        let mut room: VoiceRoom = self.open_room(channel_id);
        let mut change: RoomChange = room.reconciled(channel_id, participants, now);
        proof {
            let outcome = before.opened(channel_id).reconciled(channel_id, live, now);
            lemma_reconciled_valid(before.opened(channel_id), channel_id, live, now);
            lemma_settled_valid(before, channel_id, outcome);
            lemma_put_back_settled(before, channel_id, outcome);
        }
        self.settle_room(channel_id, room, &mut change);
        change
    }

    /// Closes the channels that LiveKit does not report at all. To be called
    /// after `reconcile_room` for every channel that it reports.
    pub fn reconcile_prune(&mut self, live_channels: &HashSet<ChannelId>) -> (r: Vec<RoomChange>)
        requires
            old(self).wf(),
            old(self)@.can_count_in(old(self)@.unreported(live_channels@)),
        ensures
            final(self).wf(),
            final(self).clock() == old(self).clock(),
            (final(self)@, change_list(r@)) == old(self)@.pruned(live_channels@),
    {
        broadcast use vstd::std_specs::hash::group_hash_axioms;

        let ghost before = self@;
        let keys: Vec<ChannelId> = self.all_channel_ids();
        let mut changes: Vec<RoomChange> = Vec::new();
        let ghost p = |c: Uuid| !live_channels@.contains(c);
        let ghost f = |c: Uuid| before.rooms[c].closed(c, ChangeReason::ReconcileRemoved);
        let ghost g = |c: Uuid| reported(f(c));
        let ghost mut dead: Seq<Uuid> = Seq::empty();
        proof {
            lemma_settle_none(before, f);
            assert(dead.to_set() =~= Set::empty());
            assert(change_list(changes@) =~= dead.map_values(g));
        }
        for i in 0..keys.len()
            invariant
                before == old(self)@,
                before.valid(),
                before.can_count_in(before.unreported(live_channels@)),
                p == (|c: Uuid| !live_channels@.contains(c)),
                f == (|c: Uuid| before.rooms[c].closed(c, ChangeReason::ReconcileRemoved)),
                g == (|c: Uuid| reported(f(c))),
                lists(keys@, before.rooms.dom(), id_order()),
                picks(dead, keys@, i as int, p, id_order()),
                self.indexed(),
                self.clock() == old(self).clock(),
                self@ == before.settled_all(dead.to_set(), f),
                change_list(changes@) == dead.map_values(g),
        {
            let c: ChannelId = keys[i];
            let ghost middle = self@;
            proof {
                lemma_pick(dead, keys@, i as int, p, id_order());
                assert(keys@.contains(c));
                assert(before.rooms.dom().contains(c));
                assert(before.unreported(live_channels@).contains(c) ==> before.can_count(c));
                assert(!dead.contains(c)) by {
                    if dead.contains(c) {
                        let j = choose|j: int| 0 <= j < i && #[trigger] keys@[j] == c;
                        let lt = id_order();
                        assert(lt(keys@[j], keys@[i as int]));
                    }
                }
                assert(middle.rooms.contains_key(c));
                assert(middle.rooms[c] == before.rooms[c]);
            }
            if !live_channels.contains(&c) {
                let change: RoomChange = self.close(c, ChangeReason::ReconcileRemoved);
                let ghost some = changes@;
                changes.push(change);
                proof {
                    lemma_settle_one_more(before, dead.to_set(), f, c);
                    let prev = dead;
                    dead = dead.push(c);
                    assert(dead.to_set() =~= prev.to_set().insert(c)) by {
                        assert forall|d: Uuid| dead.to_set().contains(d) <==> prev.to_set().insert(c).contains(d) by {
                            lemma_push_contains(prev, c, d);
                        }
                    }
                    lemma_change_list_push(some, change);
                    assert(change_list(changes@) =~= dead.map_values(g));
                }
            }
        }
        proof {
            let all = before.unreported(live_channels@);
            lemma_picked(dead, keys@, before.rooms.dom(), p, id_order());
            assert(all =~= before.rooms.dom().filter(p));
            assert forall|c: Uuid| all.contains(c) implies (#[trigger] f(c)).0.valid() by {
                lemma_closed_valid(before.rooms[c], c, ChangeReason::ReconcileRemoved);
            }
            lemma_settled_all_valid(before, all, f);
            assert(change_list(changes@) =~= before.pruned(live_channels@).1);
        }
        changes
    }

    /// Closes a room.
    pub(crate) fn close(&mut self, channel_id: ChannelId, reason: ChangeReason) -> (r: RoomChange)
        requires
            old(self).indexed(),
            old(self)@.rooms.contains_key(channel_id),
            old(self)@.can_count(channel_id),
        ensures
            final(self).indexed(),
            final(self).clock() == old(self).clock(),
            final(self)@ == old(self)@.settled(
                channel_id,
                old(self)@.rooms[channel_id].closed(channel_id, reason),
            ),
            r@ == reported(old(self)@.rooms[channel_id].closed(channel_id, reason)),
    {
        let room: VoiceRoom = self.open_room(channel_id);
        let mut change: RoomChange = room.closed(channel_id, reason);
        self.retire(channel_id, change.version_after);
        change.room_closed = true;
        proof {
            let outcome = old(self)@.rooms[channel_id].closed(channel_id, reason);
            assert(outcome.0.participants.dom() =~= Set::empty());
            assert(change@ =~= reported(outcome));
        }
        change
    }
}

} // verus!
