//! One room, and what each event does to it.

use std::collections::HashMap;

use vstd::prelude::*;

use crate::clock::Reading;
use crate::ident::{uuid_to_string, Uuid, MUSIC_BOT_ID};
use crate::listing::{id_order, sorted_ids};
use crate::text::{copy_optional, optional_text, same_text, texts};
use crate::voice::model::{music_row, music_sid, ParticipantModel, RoomModel, TrackModel};
use crate::voice::tracks::TrackTable;
use crate::voice::types::{
    ChangeReason, ChannelId, HintError, ParticipantSid, RoomChange, TrackSid, TrackSource, UserId,
    VoiceParticipant, VoiceTrack,
};

verus! {

broadcast use vstd::std_specs::hash::group_hash_axioms;

/// A room.
#[derive(Debug)]
pub struct VoiceRoom {
    /// Counts the accepted mutations of the channel.
    pub version: u64,
    pub participants: HashMap<UserId, VoiceParticipant>,
    /// By the SID that LiveKit gave, never by an invented one.
    pub tracks: TrackTable,
    /// When the room was last confirmed, by the monotonic clock.
    pub reconciled_at: Option<i128>,
}

impl View for VoiceRoom {
    type V = RoomModel;

    open spec fn view(&self) -> RoomModel {
        RoomModel {
            version: self.version as nat,
            participants: self.participants@.map_values(|p: VoiceParticipant| p@),
            tracks: self.tracks@,
            reconciled_at: self.reconciled_at,
        }
    }
}

impl Default for VoiceRoom {
    /// A room with nobody in it.
    fn default() -> (r: VoiceRoom)
        ensures
            r.wf(),
            r@ == RoomModel::fresh(0),
    {
        VoiceRoom::counting_from(0)
    }
}

impl VoiceRoom {
    /// The track table is in order.
    pub open spec fn wf(&self) -> bool {
        self.tracks.wf()
    }

    /// A room with nobody in it, that counts on from `version`.
    pub fn counting_from(version: u64) -> (r: VoiceRoom)
        ensures
            r.wf(),
            r@ == RoomModel::fresh(version as nat),
    {
        let r = VoiceRoom {
            version,
            participants: HashMap::new(),
            tracks: TrackTable::new(),
            reconciled_at: None,
        };
        assert(r@.participants =~= Map::empty());
        r
    }

    /// Is `user_id` in the room?
    pub fn contains(&self, user_id: UserId) -> (r: bool)
        ensures
            r == self@.participants.contains_key(user_id),
    {
        self.participants.contains_key(&user_id)
    }

    /// The row of `user_id`.
    pub fn participant(&self, user_id: UserId) -> (r: Option<&VoiceParticipant>)
        ensures
            r is Some <==> self@.participants.contains_key(user_id),
            r matches Some(p) ==> p@ == self@.participants[user_id],
    {
        self.participants.get(&user_id)
    }

    /// Is nobody in the room?
    pub fn is_deserted(&self) -> (r: bool)
        ensures
            r == self@.deserted(),
    {
        let r: bool = self.participants.is_empty();
        proof {
            let d = self.participants@.dom();
            assert(self@.participants.dom() =~= d);
            if d.len() == 0 {
                assert(d =~= Set::empty());
            } else {
                assert(!(d =~= Set::empty()));
            }
        }
        r
    }

    /// Counts an accepted mutation.
    pub(crate) fn bump(&mut self) -> (r: u64)
        requires
            old(self).version < u64::MAX,
        ensures
            final(self)@ == old(self)@.bumped(),
            final(self).participants == old(self).participants,
            final(self).tracks == old(self).tracks,
            r == final(self).version,
    {
        self.version = self.version + 1;
        self.version
    }

    /// Puts a row in, in place of an older one.
    pub(crate) fn put(&mut self, p: VoiceParticipant)
        ensures
            final(self)@ == old(self)@.with_participant(p@),
            final(self).tracks == old(self).tracks,
    {
        let ghost row = p;
        self.participants.insert(p.user_id, p);
        assert(self@.participants =~= old(self)@.participants.insert(row.user_id, row@));
    }

    /// Puts a row in and reports it as new.
    fn add(&mut self, channel_id: ChannelId, p: VoiceParticipant, reason: ChangeReason) -> (r: RoomChange)
        requires
            old(self).wf(),
            old(self).version < u64::MAX,
        ensures
            final(self).wf(),
            (final(self)@, r@) == old(self)@.adding(channel_id, p@, reason),
    {
        let mut change: RoomChange = RoomChange::quiet(channel_id, self.version, reason);
        change.participants_added.push(p.clone());
        self.put(p);
        change.version_after = self.bump();
        assert(change@.participants_added =~= seq![p@]);
        assert(change@ =~= old(self)@.adding(channel_id, p@, reason).1);
        change
    }

    /// Puts a row in and reports it as another row of someone who was there.
    fn update(&mut self, channel_id: ChannelId, p: VoiceParticipant, reason: ChangeReason) -> (r: RoomChange)
        requires
            old(self).wf(),
            old(self).version < u64::MAX,
        ensures
            final(self).wf(),
            (final(self)@, r@) == old(self)@.updating(channel_id, p@, reason),
    {
        let mut change: RoomChange = RoomChange::quiet(channel_id, self.version, reason);
        change.participants_updated.push(p.clone());
        self.put(p);
        change.version_after = self.bump();
        assert(change@.participants_updated =~= seq![p@]);
        assert(change@ =~= old(self)@.updating(channel_id, p@, reason).1);
        change
    }

    /// Puts a track in and reports it.
    fn add_track(&mut self, channel_id: ChannelId, t: VoiceTrack, reason: ChangeReason) -> (r: RoomChange)
        requires
            old(self).wf(),
            old(self).version < u64::MAX,
        ensures
            final(self).wf(),
            (final(self)@, r@) == old(self)@.adding_track(channel_id, t@, reason),
    {
        let mut change: RoomChange = RoomChange::quiet(channel_id, self.version, reason);
        change.tracks_added.push(t.clone());
        self.tracks.insert(t);
        change.version_after = self.bump();
        assert(change@.tracks_added =~= seq![t@]);
        assert(change@ =~= old(self)@.adding_track(channel_id, t@, reason).1);
        change
    }

    /// Takes the track `sid` out and reports it.
    fn remove_track(&mut self, channel_id: ChannelId, sid: &str, reason: ChangeReason) -> (r: RoomChange)
        requires
            old(self).wf(),
            old(self).version < u64::MAX,
        ensures
            final(self).wf(),
            (final(self)@, r@) == old(self)@.removing_track(channel_id, sid@, reason),
    {
        let mut change: RoomChange = RoomChange::quiet(channel_id, self.version, reason);
        change.tracks_removed.push(sid.to_string());
        self.tracks.remove(sid);
        change.version_after = self.bump();
        assert(change@.tracks_removed =~= seq![sid@]);
        assert(change@ =~= old(self)@.removing_track(channel_id, sid@, reason).1);
        change
    }

    /// Takes `users` out, each with their tracks. Says which tracks went.
    pub(crate) fn drop_users(&mut self, users: &Vec<UserId>) -> (r: Vec<TrackSid>)
        requires
            old(self).wf(),
        ensures
            final(self).wf(),
            final(self)@ == old(self)@.without_users(users@.to_set()),
            final(self).version == old(self).version,
            texts(r@) == crate::listing::sorted_texts(old(self)@.owned_by(users@.to_set())),
    {
        let ghost before = *self;
        let ghost set = users@.to_set();
        let owned: Vec<TrackSid> = self.tracks.owned_by(users);
        proof {
            assert(before@.owned_by(set) =~= self.tracks@.dom().filter(
                |s: Seq<char>| set.contains(self.tracks@[s].owner),
            ));
        }
        self.tracks.remove_all(&owned);
        for i in 0..users.len()
            invariant
                self.wf(),
                self.version == before.version,
                self.tracks@ == before.tracks@.remove_keys(texts(owned@).to_set()),
                self.reconciled_at == before.reconciled_at,
                self.participants@ == before.participants@.remove_keys(users@.take(i as int).to_set()),
        {
            self.participants.remove(&users[i]);
            proof {
                let some = users@.take(i as int);
                let more = users@.take(i + 1);
                assert(more =~= some.push(users@[i as int]));
                assert forall|u: Uuid| #[trigger] more.to_set().contains(u) <==> some.to_set().contains(u) || u
                    == users@[i as int] by {
                    crate::listing::lemma_push_contains(some, users@[i as int], u);
                }
                assert(self.participants@ =~= before.participants@.remove_keys(more.to_set()));
            }
        }
        proof {
            assert(users@.take(users@.len() as int) =~= users@);
            self.tracks.lemma_table();
            before.tracks.lemma_table();
            let gone = before@.owned_by(set);
            crate::listing::lemma_text_order();
            crate::listing::lemma_listing_exists(gone, crate::listing::text_order());
            assert(texts(owned@).to_set() =~= gone) by {
                assert forall|s: Seq<char>| texts(owned@).to_set().contains(s) <==> gone.contains(s) by {
                    assert(texts(owned@).contains(s) <==> gone.contains(s));
                }
            }
            assert(self@ =~= before@.without_users(set));
        }
        owned
    }

    /// Takes `users`, who are listed in order, out, each with their tracks,
    /// and reports it.
    pub(crate) fn remove_users(&mut self, channel_id: ChannelId, users: Vec<UserId>, reason: ChangeReason) -> (r: RoomChange)
        requires
            old(self).wf(),
            old(self).version < u64::MAX,
            users@ == sorted_ids(users@.to_set()),
        ensures
            final(self).wf(),
            (final(self)@, r@) == old(self)@.removing(channel_id, users@.to_set(), reason),
    {
        let mut change: RoomChange = RoomChange::quiet(channel_id, self.version, reason);
        change.tracks_removed = self.drop_users(&users);
        change.version_after = self.bump();
        let ghost gone = users@;
        change.participants_removed = users;
        assert(change@ =~= old(self)@.removing(channel_id, gone.to_set(), reason).1);
        change
    }

    /// Takes one user out, with their tracks, and reports it.
    fn remove_user(&mut self, channel_id: ChannelId, user_id: UserId, reason: ChangeReason) -> (r: RoomChange)
        requires
            old(self).wf(),
            old(self).version < u64::MAX,
        ensures
            final(self).wf(),
            (final(self)@, r@) == old(self)@.removing(channel_id, set![user_id], reason),
    {
        let users: Vec<UserId> = vec![user_id];
        proof {
            assert(users@ =~= seq![user_id]);
            assert(users@.contains(user_id)) by {
                assert(users@[0] == user_id);
            }
            assert(users@.to_set() =~= set![user_id]);
            crate::listing::lemma_is_listing(users@, set![user_id], id_order());
        }
        self.remove_users(channel_id, users, reason)
    }

    /// LiveKit says that `user_id` joined with session `sid`.
    pub fn joined(&mut self, channel_id: ChannelId, user_id: UserId, sid: ParticipantSid, now: Reading) -> (r: RoomChange)
        requires
            old(self).wf(),
            old(self)@.valid(),
            old(self).version < u64::MAX,
        ensures
            final(self).wf(),
            (final(self)@, r@) == old(self)@.joined(channel_id, user_id, sid@, now),
    {
        let reason: ChangeReason = ChangeReason::WebhookParticipantJoined;
        match self.participants.get(&user_id) {
            Some(row) => {
                if is_session(&row.sid, sid.as_str()) {
                    return RoomChange::quiet(channel_id, self.version, reason);
                }
                let mut confirmed: VoiceParticipant = row.clone();
                confirmed.sid = Some(sid);
                confirmed.provisional_since = None;
                assert(confirmed@ =~= self@.participants[user_id].confirmed(sid@));
                self.update(channel_id, confirmed, reason)
            },
            None => {
                let row: VoiceParticipant = new_row(user_id, Some(sid), user_id == MUSIC_BOT_ID, now);
                self.add(channel_id, row, reason)
            },
        }
    }

    /// LiveKit says that session `sid` of `user_id` ended.
    pub fn left(&mut self, channel_id: ChannelId, user_id: UserId, sid: &str) -> (r: RoomChange)
        requires
            old(self).wf(),
            old(self).version < u64::MAX,
        ensures
            final(self).wf(),
            (final(self)@, r@) == old(self)@.left(channel_id, user_id, sid@),
    {
        let reason: ChangeReason = ChangeReason::WebhookParticipantLeft;
        let current: bool = match self.participants.get(&user_id) {
            Some(row) => is_session(&row.sid, sid),
            None => false,
        };
        if current {
            self.remove_user(channel_id, user_id, reason)
        } else {
            RoomChange::quiet(channel_id, self.version, reason)
        }
    }

    /// LiveKit says that `user_id` published the track `track_sid`.
    pub fn published(
        &mut self,
        channel_id: ChannelId,
        user_id: UserId,
        session: Option<ParticipantSid>,
        track_sid: TrackSid,
        source: TrackSource,
        now: Reading,
    ) -> (r: RoomChange)
        requires
            old(self).wf(),
            old(self).version + if old(self)@.participants.contains_key(user_id) {
                1int
            } else {
                2int
            } <= u64::MAX,
        ensures
            final(self).wf(),
            (final(self)@, r@) == old(self)@.published(
                channel_id,
                user_id,
                optional_text(session),
                track_sid@,
                source,
                now,
            ),
    {
        let reason: ChangeReason = ChangeReason::WebhookTrackPublished;
        if self.tracks.contains_key(track_sid.as_str()) {
            return RoomChange::quiet(channel_id, self.version, reason);
        }
        match self.participants.get(&user_id) {
            Some(owner) => {
                let owner_sid: Option<ParticipantSid> = if session.is_some() {
                    session
                } else {
                    copy_optional(&owner.sid)
                };
                let track: VoiceTrack = VoiceTrack {
                    sid: track_sid,
                    owner: user_id,
                    owner_sid,
                    source,
                    muted: false,
                };
                self.add_track(channel_id, track, reason)
            },
            None => {
                let track: VoiceTrack = VoiceTrack {
                    sid: track_sid,
                    owner: user_id,
                    owner_sid: copy_optional(&session),
                    source,
                    muted: false,
                };
                let row: VoiceParticipant = new_row(user_id, session, user_id == MUSIC_BOT_ID, now);
                let mut change: RoomChange = self.add(channel_id, row, reason);
                change.tracks_added.push(track.clone());
                self.tracks.insert(track);
                change.version_after = self.bump();
                proof {
                    let want = old(self)@.published(
                        channel_id,
                        user_id,
                        optional_text(session),
                        track_sid@,
                        source,
                        now,
                    );
                    assert(change@.tracks_added =~= seq![track@]);
                    assert(change@ =~= want.1);
                    assert(self@ =~= want.0);
                }
                change
            },
        }
    }

    /// LiveKit says that the track `track_sid` is gone.
    pub fn unpublished(&mut self, channel_id: ChannelId, track_sid: &str) -> (r: RoomChange)
        requires
            old(self).wf(),
            old(self).version < u64::MAX,
        ensures
            final(self).wf(),
            (final(self)@, r@) == old(self)@.unpublished(channel_id, track_sid@),
    {
        let reason: ChangeReason = ChangeReason::WebhookTrackUnpublished;
        if self.tracks.contains_key(track_sid) {
            self.remove_track(channel_id, track_sid, reason)
        } else {
            RoomChange::quiet(channel_id, self.version, reason)
        }
    }

    /// LiveKit says whether the track `track_sid` is muted.
    pub fn track_muted(&mut self, channel_id: ChannelId, track_sid: &str, muted: bool) -> (r: RoomChange)
        requires
            old(self).wf(),
            old(self).version < u64::MAX,
        ensures
            final(self).wf(),
            (final(self)@, r@) == old(self)@.track_muted(channel_id, track_sid@, muted),
    {
        let reason: ChangeReason = ChangeReason::WebhookTrackMuted;
        match self.tracks.get(track_sid) {
            Some(track) => {
                if track.muted == muted {
                    return RoomChange::quiet(channel_id, self.version, reason);
                }
                let mut updated: VoiceTrack = track.clone();
                updated.muted = muted;
                assert(updated@ =~= (TrackModel { muted, ..self@.tracks[track_sid@] }));
                self.add_track(channel_id, updated, reason)
            },
            None => RoomChange::quiet(channel_id, self.version, reason),
        }
    }

    /// The client of `user_id` says that it is joining.
    pub fn hint_joined(
        &mut self,
        channel_id: ChannelId,
        user_id: UserId,
        sid: Option<ParticipantSid>,
        is_bot: bool,
        now: Reading,
    ) -> (r: RoomChange)
        requires
            old(self).wf(),
            old(self)@.valid(),
            old(self).version < u64::MAX,
        ensures
            final(self).wf(),
            (final(self)@, r@) == old(self)@.hint_joined(
                channel_id,
                user_id,
                optional_text(sid),
                is_bot,
                now,
            ),
    {
        let reason: ChangeReason = ChangeReason::WsPresenceHint;
        match self.participants.get(&user_id) {
            Some(row) => {
                if row.is_provisional() && sid.is_some() {
                    let mut confirmed: VoiceParticipant = row.clone();
                    confirmed.sid = sid;
                    confirmed.provisional_since = None;
                    assert(confirmed@ =~= self@.participants[user_id].confirmed(optional_text(sid)->0));
                    self.update(channel_id, confirmed, reason)
                } else {
                    RoomChange::quiet(channel_id, self.version, reason)
                }
            },
            None => {
                let row: VoiceParticipant = new_row(
                    user_id,
                    sid,
                    is_bot || user_id == MUSIC_BOT_ID,
                    now,
                );
                self.add(channel_id, row, reason)
            },
        }
    }

    /// The client of `user_id` says that it is leaving. Says, besides, whether
    /// the room has to be confirmed, because the row is.
    pub fn hint_left(&mut self, channel_id: ChannelId, user_id: UserId) -> (r: (RoomChange, bool))
        requires
            old(self).wf(),
            old(self).version < u64::MAX,
        ensures
            final(self).wf(),
            (final(self)@, r.0@) == old(self)@.hint_left(channel_id, user_id),
            r.1 == old(self)@.has_confirmed(user_id),
    {
        let reason: ChangeReason = ChangeReason::WsPresenceHint;
        let provisional: Option<bool> = match self.participants.get(&user_id) {
            Some(row) => Some(row.is_provisional()),
            None => None,
        };
        match provisional {
            Some(true) => (self.remove_user(channel_id, user_id, reason), false),
            Some(false) => (RoomChange::quiet(channel_id, self.version, reason), true),
            None => (RoomChange::quiet(channel_id, self.version, reason), false),
        }
    }

    /// The client of `user_id` says that it published the track `track_sid`.
    pub fn hint_published(
        &mut self,
        channel_id: ChannelId,
        user_id: UserId,
        track_sid: TrackSid,
        source: TrackSource,
    ) -> (r: Result<RoomChange, HintError>)
        requires
            old(self).wf(),
            old(self).version < u64::MAX,
        ensures
            final(self).wf(),
            match (r, old(self)@.hint_published(channel_id, user_id, track_sid@, source)) {
                (Ok(change), Ok(outcome)) => (final(self)@, change@) == outcome,
                (Err(e), Err(f)) => e == f && *final(self) == *old(self),
                _ => false,
            },
    {
        match self.participants.get(&user_id) {
            Some(owner) => {
                let reason: ChangeReason = ChangeReason::WsTrackHint;
                if self.tracks.contains_key(track_sid.as_str()) {
                    return Ok(RoomChange::quiet(channel_id, self.version, reason));
                }
                let track: VoiceTrack = VoiceTrack {
                    sid: track_sid,
                    owner: user_id,
                    owner_sid: copy_optional(&owner.sid),
                    source,
                    muted: false,
                };
                Ok(self.add_track(channel_id, track, reason))
            },
            None => Err(HintError::NotInCall),
        }
    }

    /// The client of `user_id` says that it took the track `track_sid` down.
    pub fn hint_unpublished(&mut self, channel_id: ChannelId, user_id: UserId, track_sid: &str) -> (r: Result<
        RoomChange,
        HintError,
    >)
        requires
            old(self).wf(),
            old(self).version < u64::MAX,
        ensures
            final(self).wf(),
            match (r, old(self)@.hint_unpublished(channel_id, user_id, track_sid@)) {
                (Ok(change), Ok(outcome)) => (final(self)@, change@) == outcome,
                (Err(e), Err(f)) => e == f && *final(self) == *old(self),
                _ => false,
            },
    {
        let owned: bool = match self.tracks.get(track_sid) {
            Some(track) => track.owner == user_id,
            None => {
                return Err(HintError::TrackNotFound);
            },
        };
        if owned {
            Ok(self.remove_track(channel_id, track_sid, ChangeReason::WsTrackHint))
        } else {
            Err(HintError::NotTrackOwner)
        }
    }

    /// `user_id` mutes or deafens itself.
    pub fn audio_set(
        &mut self,
        channel_id: ChannelId,
        user_id: UserId,
        muted: Option<bool>,
        deafened: Option<bool>,
    ) -> (r: Result<RoomChange, HintError>)
        requires
            old(self).wf(),
            old(self)@.valid(),
            old(self).version < u64::MAX,
        ensures
            final(self).wf(),
            match (r, old(self)@.audio_set(channel_id, user_id, muted, deafened)) {
                (Ok(change), Ok(outcome)) => (final(self)@, change@) == outcome,
                (Err(e), Err(f)) => e == f && *final(self) == *old(self),
                _ => false,
            },
    {
        let reason: ChangeReason = ChangeReason::WsStateUpdate;
        match self.participants.get(&user_id) {
            Some(row) => {
                let mut after: VoiceParticipant = row.clone();
                let mut touched: bool = false;
                if let Some(m) = muted {
                    if after.muted != m {
                        after.muted = m;
                        touched = true;
                    }
                }
                if let Some(d) = deafened {
                    if after.deafened != d {
                        after.deafened = d;
                        touched = true;
                    }
                }
                if touched {
                    Ok(self.update(channel_id, after, reason))
                } else {
                    Ok(RoomChange::quiet(channel_id, self.version, reason))
                }
            },
            None => Err(HintError::NotInCall),
        }
    }

    /// The music bot starts to play, or stops.
    pub fn music_set(&mut self, channel_id: ChannelId, playing: bool) -> (r: RoomChange)
        requires
            old(self).wf(),
            old(self).version < u64::MAX,
        ensures
            final(self).wf(),
            (final(self)@, r@) == old(self)@.music_set(channel_id, playing),
    {
        let reason: ChangeReason = ChangeReason::WsTrackHint;
        let sid: TrackSid = music_row_sid(channel_id);
        if self.tracks.contains_key(sid.as_str()) == playing {
            RoomChange::quiet(channel_id, self.version, reason)
        } else if playing {
            let track: VoiceTrack = VoiceTrack {
                sid,
                owner: MUSIC_BOT_ID,
                owner_sid: None,
                source: TrackSource::Music,
                muted: false,
            };
            assert(track@ =~= music_row(channel_id));
            self.add_track(channel_id, track, reason)
        } else {
            self.remove_track(channel_id, sid.as_str(), reason)
        }
    }
}

/// Is `sid` the session that a row has?
pub fn is_session(row: &Option<ParticipantSid>, sid: &str) -> (r: bool)
    ensures
        r == (optional_text(*row) == Some(sid@)),
{
    match row {
        Some(s) => same_text(s.as_str(), sid),
        None => false,
    }
}

/// A new row, stamped `now`. It is provisional where no session is known.
pub fn new_row(user_id: UserId, sid: Option<ParticipantSid>, is_bot: bool, now: Reading) -> (r: VoiceParticipant)
    ensures
        r@ == ParticipantModel::fresh(user_id, optional_text(sid), is_bot, now),
{
    let provisional_since: Option<i128> = if sid.is_none() {
        Some(now.mono)
    } else {
        None
    };
    VoiceParticipant {
        user_id,
        sid,
        joined_at: now.utc,
        provisional_since,
        muted: false,
        deafened: false,
        is_bot,
    }
}

/// The SID of the music row of `channel_id`. No track of LiveKit has it.
pub fn music_row_sid(channel_id: ChannelId) -> (r: TrackSid)
    ensures
        r@ == music_sid(channel_id),
{
    let mut sid: String = "music:".to_string();
    let id: String = uuid_to_string(channel_id);
    sid.append(id.as_str());
    sid
}

} // verus!
