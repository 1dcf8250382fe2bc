//! The mathematical model of rooms, and what each operation does to it.

use vstd::prelude::*;

use crate::clock::{Reading, UtcTime};
use crate::ident::{uuid_text, Uuid, MUSIC_BOT_ID};
use crate::listing::{sorted_ids, sorted_texts};
use crate::voice::types::{ChangeReason, HintError, TrackSource, PROVISIONAL_TTL, SEEN_EVENTS_CAP};

verus! {

/// A participant.
#[verifier::ext_equal]
pub struct ParticipantModel {
    pub user_id: Uuid,
    pub sid: Option<Seq<char>>,
    pub joined_at: UtcTime,
    pub provisional_since: Option<i128>,
    pub muted: bool,
    pub deafened: bool,
    pub is_bot: bool,
}

impl ParticipantModel {
    /// A new row, stamped `now`. It is provisional where no session is known.
    pub open spec fn fresh(user_id: Uuid, sid: Option<Seq<char>>, is_bot: bool, now: Reading) -> Self {
        ParticipantModel {
            user_id,
            sid,
            joined_at: now.utc,
            provisional_since: if sid is None {
                Some(now.mono)
            } else {
                None
            },
            muted: false,
            deafened: false,
            is_bot,
        }
    }

    /// Announced by its client, not confirmed by LiveKit.
    pub open spec fn is_provisional(self) -> bool {
        self.sid is None
    }

    /// This row, confirmed as session `sid`. What only this server knows of
    /// it stays.
    pub open spec fn confirmed(self, sid: Seq<char>) -> Self {
        ParticipantModel { sid: Some(sid), provisional_since: None, ..self }
    }

    /// Provisional for `PROVISIONAL_TTL` or longer.
    pub open spec fn has_expired(self, now: i128) -> bool {
        self.provisional_since matches Some(since) && now - since >= PROVISIONAL_TTL
    }

    /// Counted toward the capacity of a channel.
    pub open spec fn is_counted(self) -> bool {
        !self.is_bot && !self.is_provisional()
    }
}

/// A track.
#[verifier::ext_equal]
pub struct TrackModel {
    pub sid: Seq<char>,
    pub owner: Uuid,
    pub owner_sid: Option<Seq<char>>,
    pub source: TrackSource,
    pub muted: bool,
}

/// A room.
#[verifier::ext_equal]
pub struct RoomModel {
    pub version: nat,
    pub participants: Map<Uuid, ParticipantModel>,
    pub tracks: Map<Seq<char>, TrackModel>,
    pub reconciled_at: Option<i128>,
}

impl RoomModel {
    /// A room with nobody in it, that counts on from `version`.
    pub open spec fn fresh(version: nat) -> Self {
        RoomModel { version, participants: Map::empty(), tracks: Map::empty(), reconciled_at: None }
    }

    /// Every row is found by its own key; a row is provisional exactly while
    /// it ages; the owner of a track is in the room, but for the music row of
    /// the bot.
    pub open spec fn valid(self) -> bool {
        &&& self.participants.dom().finite()
        &&& self.tracks.dom().finite()
        &&& forall|u: Uuid| #[trigger]
            self.participants.contains_key(u) ==> {
                &&& self.participants[u].user_id == u
                &&& self.participants[u].sid is None <==> self.participants[u].provisional_since is Some
            }
        &&& forall|s: Seq<char>| #[trigger]
            self.tracks.contains_key(s) ==> {
                &&& self.tracks[s].sid == s
                &&& self.participants.contains_key(self.tracks[s].owner) || (self.tracks[s].owner
                    == MUSIC_BOT_ID && self.tracks[s].source == TrackSource::Music)
            }
    }

    /// Nobody is in the room.
    pub open spec fn deserted(self) -> bool {
        self.participants.dom() =~= Set::empty()
    }

    /// The room with a participant put in, or put in place of an older row.
    pub open spec fn with_participant(self, p: ParticipantModel) -> Self {
        RoomModel { participants: self.participants.insert(p.user_id, p), ..self }
    }

    /// The room with a track put in, or put in place of an older row.
    pub open spec fn with_track(self, t: TrackModel) -> Self {
        RoomModel { tracks: self.tracks.insert(t.sid, t), ..self }
    }

    /// The room without the track `sid`.
    pub open spec fn without_track(self, sid: Seq<char>) -> Self {
        RoomModel { tracks: self.tracks.remove(sid), ..self }
    }

    /// The SIDs of the tracks that someone in `owners` owns.
    pub open spec fn owned_by(self, owners: Set<Uuid>) -> Set<Seq<char>> {
        self.tracks.dom().filter(|s: Seq<char>| owners.contains(self.tracks[s].owner))
    }

    /// The room without `users` and without their tracks.
    pub open spec fn without_users(self, users: Set<Uuid>) -> Self {
        RoomModel {
            participants: self.participants.remove_keys(users),
            tracks: self.tracks.remove_keys(self.owned_by(users)),
            ..self
        }
    }

    /// The room after one more accepted mutation.
    pub open spec fn bumped(self) -> Self {
        RoomModel { version: self.version + 1, ..self }
    }

    /// How many people count toward the capacity.
    pub open spec fn human_count(self) -> nat {
        self.participants.dom().filter(|u: Uuid| self.participants[u].is_counted()).len()
    }

    /// Who has been provisional for too long.
    pub open spec fn expired_at(self, now: i128) -> Set<Uuid> {
        self.participants.dom().filter(|u: Uuid| self.participants[u].has_expired(now))
    }

    /// Who is in the room but not among `listed`, and was confirmed or has
    /// been provisional for too long.
    pub open spec fn absent(self, listed: Set<Uuid>, now: i128) -> Set<Uuid> {
        self.participants.dom().filter(
            |u: Uuid|
                !listed.contains(u) && (self.participants[u].provisional_since is None
                    || self.participants[u].has_expired(now)),
        )
    }

    /// Is the track `sid` a music row? LiveKit knows of none.
    pub open spec fn is_music_row(self, sid: Seq<char>) -> bool {
        self.tracks.contains_key(sid) && self.tracks[sid].source == TrackSource::Music
    }

    /// The tracks that `listed` lacks. A music row is never listed, and never
    /// missed.
    pub open spec fn unlisted(self, listed: Map<Seq<char>, TrackModel>) -> Set<Seq<char>> {
        self.tracks.dom().filter(
            |s: Seq<char>| self.tracks[s].source != TrackSource::Music && !listed.contains_key(s),
        )
    }

    /// The listed tracks that the room lacks, or has otherwise. A music row
    /// is left alone.
    pub open spec fn unsynced(self, listed: Map<Seq<char>, TrackModel>) -> Set<Seq<char>> {
        listed.dom().filter(
            |s: Seq<char>|
                !self.is_music_row(s) && (!self.tracks.contains_key(s) || self.tracks[s] != listed[s]),
        )
    }

    /// The room with the tracks of `listed`, each as it is listed, and with
    /// its music rows as they are.
    pub open spec fn synced(self, listed: Map<Seq<char>, TrackModel>) -> Self {
        RoomModel {
            tracks: Map::new(
                |s: Seq<char>| listed.contains_key(s) || self.is_music_row(s),
                |s: Seq<char>|
                    if self.is_music_row(s) {
                        self.tracks[s]
                    } else {
                        listed[s]
                    },
            ),
            ..self
        }
    }
}

/// A participant as LiveKit lists it.
#[verifier::ext_equal]
pub struct LiveParticipant {
    pub user_id: Uuid,
    pub sid: Seq<char>,
    pub tracks: Seq<LiveTrack>,
}

/// A track as LiveKit lists it.
#[verifier::ext_equal]
pub struct LiveTrack {
    pub sid: Seq<char>,
    pub source: TrackSource,
    pub muted: bool,
}

impl LiveParticipant {
    /// The rows of its tracks.
    pub open spec fn rows(self) -> Seq<TrackModel> {
        Seq::new(
            self.tracks.len(),
            |i: int|
                TrackModel {
                    sid: self.tracks[i].sid,
                    owner: self.user_id,
                    owner_sid: Some(self.sid),
                    source: self.tracks[i].source,
                    muted: self.tracks[i].muted,
                },
        )
    }
}

/// Who is in a list of participants.
pub open spec fn live_users(live: Seq<LiveParticipant>) -> Set<Uuid> {
    Set::new(|u: Uuid| exists|i: int| 0 <= i < live.len() && (#[trigger] live[i]).user_id == u)
}

/// The rows of the tracks of a list of participants, in the order of the list.
pub open spec fn live_rows(live: Seq<LiveParticipant>) -> Seq<TrackModel>
    decreases live.len(),
{
    if live.len() == 0 {
        Seq::empty()
    } else {
        live_rows(live.drop_last()) + live.last().rows()
    }
}

/// Rows by their SIDs. Where a SID comes twice, the later row counts.
pub open spec fn by_sid(rows: Seq<TrackModel>) -> Map<Seq<char>, TrackModel>
    decreases rows.len(),
{
    if rows.len() == 0 {
        Map::empty()
    } else {
        by_sid(rows.drop_last()).insert(rows.last().sid, rows.last())
    }
}

/// A room that took in a list of participants, and what that did to its rows.
#[verifier::ext_equal]
pub struct Seating {
    pub room: RoomModel,
    pub added: Seq<ParticipantModel>,
    pub updated: Seq<ParticipantModel>,
}

impl Seating {
    /// Takes in one participant: a newcomer gets a row, one with another
    /// session is confirmed, and everyone else stays as they are.
    pub open spec fn take_in(self, p: LiveParticipant, now: Reading) -> Self {
        if !self.room.participants.contains_key(p.user_id) {
            let row = ParticipantModel::fresh(p.user_id, Some(p.sid), p.user_id == MUSIC_BOT_ID, now);
            Seating { room: self.room.with_participant(row), added: self.added.push(row), ..self }
        } else if self.room.participants[p.user_id].sid != Some(p.sid) {
            let row = self.room.participants[p.user_id].confirmed(p.sid);
            Seating { room: self.room.with_participant(row), updated: self.updated.push(row), ..self }
        } else {
            self
        }
    }

    /// Takes in a list of participants, one after the other.
    pub open spec fn take_in_all(self, live: Seq<LiveParticipant>, now: Reading) -> Self
        decreases live.len(),
    {
        if live.len() == 0 {
            self
        } else {
            self.take_in_all(live.drop_last(), now).take_in(live.last(), now)
        }
    }
}

/// A room and what an operation reports of it.
pub type Outcome = (RoomModel, ChangeModel);

/// What each operation makes of a room.
impl RoomModel {
    /// Nothing.
    pub open spec fn unchanged(self, channel: Uuid, reason: ChangeReason) -> Outcome {
        (self, ChangeModel::quiet(channel, self.version, reason))
    }

    /// The room with a new participant.
    pub open spec fn adding(self, channel: Uuid, p: ParticipantModel, reason: ChangeReason) -> Outcome {
        (
            self.with_participant(p).bumped(),
            ChangeModel {
                version_after: self.version + 1,
                participants_added: seq![p],
                ..ChangeModel::quiet(channel, self.version, reason)
            },
        )
    }

    /// The room with another row for a participant.
    pub open spec fn updating(self, channel: Uuid, p: ParticipantModel, reason: ChangeReason) -> Outcome {
        (
            self.with_participant(p).bumped(),
            ChangeModel {
                version_after: self.version + 1,
                participants_updated: seq![p],
                ..ChangeModel::quiet(channel, self.version, reason)
            },
        )
    }

    /// The room without `users` and without their tracks.
    pub open spec fn removing(self, channel: Uuid, users: Set<Uuid>, reason: ChangeReason) -> Outcome {
        (
            self.without_users(users).bumped(),
            ChangeModel {
                version_after: self.version + 1,
                participants_removed: sorted_ids(users),
                tracks_removed: sorted_texts(self.owned_by(users)),
                ..ChangeModel::quiet(channel, self.version, reason)
            },
        )
    }

    /// The room with a track put in, or put in place of an older row.
    pub open spec fn adding_track(self, channel: Uuid, t: TrackModel, reason: ChangeReason) -> Outcome {
        (
            self.with_track(t).bumped(),
            ChangeModel {
                version_after: self.version + 1,
                tracks_added: seq![t],
                ..ChangeModel::quiet(channel, self.version, reason)
            },
        )
    }

    /// The room without the track `sid`.
    pub open spec fn removing_track(self, channel: Uuid, sid: Seq<char>, reason: ChangeReason) -> Outcome {
        (
            self.without_track(sid).bumped(),
            ChangeModel {
                version_after: self.version + 1,
                tracks_removed: seq![sid],
                ..ChangeModel::quiet(channel, self.version, reason)
            },
        )
    }

    /// LiveKit says that `user` joined with session `sid`.
    pub open spec fn joined(self, channel: Uuid, user: Uuid, sid: Seq<char>, now: Reading) -> Outcome {
        let reason = ChangeReason::WebhookParticipantJoined;
        if !self.participants.contains_key(user) {
            self.adding(
                channel,
                ParticipantModel::fresh(user, Some(sid), user == MUSIC_BOT_ID, now),
                reason,
            )
        } else if self.participants[user].sid == Some(sid) {
            self.unchanged(channel, reason)
        } else {
            self.updating(channel, self.participants[user].confirmed(sid), reason)
        }
    }

    /// LiveKit says that session `sid` of `user` ended.
    pub open spec fn left(self, channel: Uuid, user: Uuid, sid: Seq<char>) -> Outcome {
        let reason = ChangeReason::WebhookParticipantLeft;
        if self.participants.contains_key(user) && self.participants[user].sid == Some(sid) {
            self.removing(channel, set![user], reason)
        } else {
            self.unchanged(channel, reason)
        }
    }

    /// LiveKit says that `user` published the track `sid`. An owner who is
    /// not in the room is put in, so that no track is orphaned.
    pub open spec fn published(
        self,
        channel: Uuid,
        user: Uuid,
        session: Option<Seq<char>>,
        sid: Seq<char>,
        source: TrackSource,
        now: Reading,
    ) -> Outcome {
        let reason = ChangeReason::WebhookTrackPublished;
        if self.tracks.contains_key(sid) {
            self.unchanged(channel, reason)
        } else if self.participants.contains_key(user) {
            let owner_sid = if session is Some {
                session
            } else {
                self.participants[user].sid
            };
            self.adding_track(
                channel,
                TrackModel { sid, owner: user, owner_sid, source, muted: false },
                reason,
            )
        } else {
            let p = ParticipantModel::fresh(user, session, user == MUSIC_BOT_ID, now);
            let t = TrackModel { sid, owner: user, owner_sid: session, source, muted: false };
            (
                self.with_participant(p).with_track(t).bumped().bumped(),
                ChangeModel {
                    version_after: self.version + 2,
                    participants_added: seq![p],
                    tracks_added: seq![t],
                    ..ChangeModel::quiet(channel, self.version, reason)
                },
            )
        }
    }

    /// LiveKit says that the track `sid` is gone.
    pub open spec fn unpublished(self, channel: Uuid, sid: Seq<char>) -> Outcome {
        let reason = ChangeReason::WebhookTrackUnpublished;
        if self.tracks.contains_key(sid) {
            self.removing_track(channel, sid, reason)
        } else {
            self.unchanged(channel, reason)
        }
    }

    /// LiveKit says whether the track `sid` is muted.
    pub open spec fn track_muted(self, channel: Uuid, sid: Seq<char>, muted: bool) -> Outcome {
        let reason = ChangeReason::WebhookTrackMuted;
        if self.tracks.contains_key(sid) && self.tracks[sid].muted != muted {
            self.adding_track(channel, TrackModel { muted, ..self.tracks[sid] }, reason)
        } else {
            self.unchanged(channel, reason)
        }
    }

    /// LiveKit lists `live` as all that is in the room.
    pub open spec fn reconciled(self, channel: Uuid, live: Seq<LiveParticipant>, now: Reading) -> Outcome {
        let gone = self.absent(live_users(live), now.mono);
        let seating = Seating {
            room: self.without_users(gone),
            added: Seq::empty(),
            updated: Seq::empty(),
        }.take_in_all(live, now);
        let listed = by_sid(live_rows(live));
        let room = seating.room.synced(listed);
        let removed = sorted_ids(gone);
        let tracks_removed = sorted_texts(self.owned_by(gone)) + sorted_texts(
            seating.room.unlisted(listed),
        );
        let tracks_added = sorted_texts(seating.room.unsynced(listed)).map_values(
            |s: Seq<char>| room.tracks[s],
        );
        let touched = seating.added.len() > 0 || seating.updated.len() > 0 || removed.len() > 0
            || tracks_added.len() > 0 || tracks_removed.len() > 0;
        let version = if touched {
            self.version + 1
        } else {
            self.version
        };
        (
            RoomModel { version, reconciled_at: Some(now.mono), ..room },
            ChangeModel {
                version_after: version,
                participants_added: seating.added,
                participants_updated: seating.updated,
                participants_removed: removed,
                tracks_added,
                tracks_removed,
                ..ChangeModel::quiet(channel, self.version, ChangeReason::ReconcileAdded)
            },
        )
    }

    /// The client of `user` says that it is joining, with session `sid` where
    /// it knows one. A confirmed row stays as it is.
    pub open spec fn hint_joined(
        self,
        channel: Uuid,
        user: Uuid,
        sid: Option<Seq<char>>,
        is_bot: bool,
        now: Reading,
    ) -> Outcome {
        let reason = ChangeReason::WsPresenceHint;
        if !self.participants.contains_key(user) {
            self.adding(
                channel,
                ParticipantModel::fresh(user, sid, is_bot || user == MUSIC_BOT_ID, now),
                reason,
            )
        } else if self.participants[user].is_provisional() && sid is Some {
            self.updating(channel, self.participants[user].confirmed(sid->0), reason)
        } else {
            self.unchanged(channel, reason)
        }
    }

    /// The client of `user` says that it is leaving. Only a provisional row
    /// goes.
    pub open spec fn hint_left(self, channel: Uuid, user: Uuid) -> Outcome {
        let reason = ChangeReason::WsPresenceHint;
        if self.participants.contains_key(user) && self.participants[user].is_provisional() {
            self.removing(channel, set![user], reason)
        } else {
            self.unchanged(channel, reason)
        }
    }

    /// Is `user` in the room, confirmed by LiveKit?
    pub open spec fn has_confirmed(self, user: Uuid) -> bool {
        self.participants.contains_key(user) && !self.participants[user].is_provisional()
    }

    /// The client of `user` says that it published the track `sid`.
    pub open spec fn hint_published(
        self,
        channel: Uuid,
        user: Uuid,
        sid: Seq<char>,
        source: TrackSource,
    ) -> Result<Outcome, HintError> {
        let reason = ChangeReason::WsTrackHint;
        if !self.participants.contains_key(user) {
            Err(HintError::NotInCall)
        } else if self.tracks.contains_key(sid) {
            Ok(self.unchanged(channel, reason))
        } else {
            Ok(
                self.adding_track(
                    channel,
                    TrackModel {
                        sid,
                        owner: user,
                        owner_sid: self.participants[user].sid,
                        source,
                        muted: false,
                    },
                    reason,
                ),
            )
        }
    }

    /// The client of `user` says that it took the track `sid` down.
    pub open spec fn hint_unpublished(
        self,
        channel: Uuid,
        user: Uuid,
        sid: Seq<char>,
    ) -> Result<Outcome, HintError> {
        if !self.tracks.contains_key(sid) {
            Err(HintError::TrackNotFound)
        } else if self.tracks[sid].owner != user {
            Err(HintError::NotTrackOwner)
        } else {
            Ok(self.removing_track(channel, sid, ChangeReason::WsTrackHint))
        }
    }

    /// `user` mutes or deafens itself. What is `None` stays as it is.
    pub open spec fn audio_set(
        self,
        channel: Uuid,
        user: Uuid,
        muted: Option<bool>,
        deafened: Option<bool>,
    ) -> Result<Outcome, HintError> {
        let reason = ChangeReason::WsStateUpdate;
        if !self.participants.contains_key(user) {
            Err(HintError::NotInCall)
        } else {
            let row = self.participants[user];
            let after = ParticipantModel {
                muted: muted.unwrap_or(row.muted),
                deafened: deafened.unwrap_or(row.deafened),
                ..row
            };
            if after == row {
                Ok(self.unchanged(channel, reason))
            } else {
                Ok(self.updating(channel, after, reason))
            }
        }
    }

    /// The music bot starts to play, or stops.
    pub open spec fn music_set(self, channel: Uuid, playing: bool) -> Outcome {
        let reason = ChangeReason::WsTrackHint;
        let sid = music_sid(channel);
        if playing == self.tracks.contains_key(sid) {
            self.unchanged(channel, reason)
        } else if playing {
            self.adding_track(channel, music_row(channel), reason)
        } else {
            self.removing_track(channel, sid, reason)
        }
    }

    /// The provisional rows that are too old go.
    pub open spec fn expired(self, channel: Uuid, now: i128) -> Outcome {
        self.removing(channel, self.expired_at(now), ChangeReason::ProvisionalExpired)
    }

    /// Everyone and everything goes.
    pub open spec fn closed(self, channel: Uuid, reason: ChangeReason) -> Outcome {
        (
            RoomModel::fresh(self.version + 1),
            ChangeModel {
                version_after: self.version + 1,
                participants_removed: sorted_ids(self.participants.dom()),
                tracks_removed: sorted_texts(self.tracks.dom()),
                ..ChangeModel::quiet(channel, self.version, reason)
            },
        )
    }

    /// `user` joined elsewhere: its row goes, whether confirmed or not.
    pub open spec fn evicted(self, channel: Uuid, user: Uuid) -> Outcome {
        match self.participants[user].sid {
            Some(sid) => self.left(channel, user, sid),
            None => self.hint_left(channel, user),
        }
    }
}

/// The SID of the music row of `channel`.
pub open spec fn music_sid(channel: Uuid) -> Seq<char> {
    "music:"@ + uuid_text(channel)
}

/// The music row of `channel`.
pub open spec fn music_row(channel: Uuid) -> TrackModel {
    TrackModel {
        sid: music_sid(channel),
        owner: MUSIC_BOT_ID,
        owner_sid: None,
        source: TrackSource::Music,
        muted: false,
    }
}

/// What an operation changed.
#[verifier::ext_equal]
pub struct ChangeModel {
    pub channel_id: Uuid,
    pub version_before: nat,
    pub version_after: nat,
    pub participants_added: Seq<ParticipantModel>,
    pub participants_updated: Seq<ParticipantModel>,
    pub participants_removed: Seq<Uuid>,
    pub tracks_added: Seq<TrackModel>,
    pub tracks_removed: Seq<Seq<char>>,
    pub reason: ChangeReason,
    pub room_closed: bool,
}

impl ChangeModel {
    /// A change of nothing.
    pub open spec fn quiet(channel_id: Uuid, version: nat, reason: ChangeReason) -> Self {
        ChangeModel {
            channel_id,
            version_before: version,
            version_after: version,
            participants_added: Seq::empty(),
            participants_updated: Seq::empty(),
            participants_removed: Seq::empty(),
            tracks_added: Seq::empty(),
            tracks_removed: Seq::empty(),
            reason,
            room_closed: false,
        }
    }

    pub open spec fn is_empty(self) -> bool {
        self.version_after == self.version_before
    }
}

/// The registry: the rooms, the last version of each room that closed, and
/// the webhook events that were seen, the oldest first.
#[verifier::ext_equal]
pub struct RegistryModel {
    pub rooms: Map<Uuid, RoomModel>,
    pub retired: Map<Uuid, nat>,
    pub seen: Seq<Seq<char>>,
}

/// A registry and what an operation reports of it.
pub type Step = (RegistryModel, ChangeModel);

/// Does `outcome` leave a room that nobody is in any more?
pub open spec fn closes(outcome: Outcome) -> bool {
    !outcome.1.is_empty() && outcome.0.deserted()
}

/// What is reported of `outcome`.
pub open spec fn reported(outcome: Outcome) -> ChangeModel {
    ChangeModel { room_closed: closes(outcome), ..outcome.1 }
}

impl RegistryModel {
    /// A registry without rooms.
    pub open spec fn empty() -> Self {
        RegistryModel { rooms: Map::empty(), retired: Map::empty(), seen: Seq::empty() }
    }

    /// Every room is valid, and no event is remembered twice or for too long.
    pub open spec fn valid(self) -> bool {
        &&& self.rooms.dom().finite()
        &&& forall|c: Uuid| #[trigger] self.rooms.contains_key(c) ==> self.rooms[c].valid()
        &&& self.seen.no_duplicates()
        &&& self.seen.len() <= SEEN_EVENTS_CAP
    }

    /// The version of a channel: that of its room, or the last one that its
    /// room had. It never restarts.
    pub open spec fn counter(self, channel: Uuid) -> nat {
        if self.rooms.contains_key(channel) {
            self.rooms[channel].version
        } else if self.retired.contains_key(channel) {
            self.retired[channel]
        } else {
            0
        }
    }

    /// Is there room to count one more on `channel`?
    pub open spec fn can_count(self, channel: Uuid) -> bool {
        self.counter(channel) + 1 <= u64::MAX
    }

    /// Is there room to count one more on every channel of `channels`?
    pub open spec fn can_count_in(self, channels: Set<Uuid>) -> bool {
        forall|c: Uuid| #[trigger] channels.contains(c) ==> self.can_count(c)
    }

    /// Is there room to count that `user` joins `channel`, and leaves every other?
    pub open spec fn can_move(self, channel: Uuid, user: Uuid) -> bool {
        self.can_count(channel) && self.can_count_in(self.elsewhere(channel, user))
    }

    /// Is there room to count a track that `user` publishes in `channel`? It
    /// counts one, and one more where it brings its owner.
    pub open spec fn can_publish(self, channel: Uuid, user: Uuid) -> bool {
        self.counter(channel) + if self.opened(channel).participants.contains_key(user) {
            1int
        } else {
            2int
        } <= u64::MAX
    }

    /// The room of `channel`, or a new one that counts on.
    pub open spec fn opened(self, channel: Uuid) -> RoomModel {
        if self.rooms.contains_key(channel) {
            self.rooms[channel]
        } else {
            RoomModel::fresh(self.counter(channel))
        }
    }

    /// The registry with `room` as the room of `channel`.
    pub open spec fn stored(self, channel: Uuid, room: RoomModel) -> Self {
        RegistryModel { rooms: self.rooms.insert(channel, room), ..self }
    }

    /// The registry after `outcome`: a room that the last participant left is
    /// closed.
    pub open spec fn settled(self, channel: Uuid, outcome: Outcome) -> Self {
        if closes(outcome) {
            RegistryModel {
                rooms: self.rooms.remove(channel),
                retired: self.retired.insert(channel, outcome.0.version),
                ..self
            }
        } else {
            self.stored(channel, outcome.0)
        }
    }

    /// The registry after `outcome` on each of `channels`.
    pub open spec fn settled_all(self, channels: Set<Uuid>, outcome: spec_fn(Uuid) -> Outcome) -> Self {
        RegistryModel {
            rooms: Map::new(
                |c: Uuid|
                    if channels.contains(c) {
                        !closes(outcome(c))
                    } else {
                        self.rooms.contains_key(c)
                    },
                |c: Uuid|
                    if channels.contains(c) {
                        outcome(c).0
                    } else {
                        self.rooms[c]
                    },
            ),
            retired: Map::new(
                |c: Uuid|
                    self.retired.contains_key(c) || (channels.contains(c) && closes(outcome(c))),
                |c: Uuid|
                    if channels.contains(c) && closes(outcome(c)) {
                        outcome(c).0.version
                    } else {
                        self.retired[c]
                    },
            ),
            ..self
        }
    }

    /// The channel that `user` is in: the first one, where it is in more than
    /// one.
    pub open spec fn channel_of(self, user: Uuid) -> Option<Uuid> {
        let channels = sorted_ids(
            self.rooms.dom().filter(|c: Uuid| self.rooms[c].participants.contains_key(user)),
        );
        if channels.len() == 0 {
            None
        } else {
            Some(channels[0])
        }
    }

    /// An operation that has no room to work on.
    pub open spec fn missed(self, channel: Uuid) -> Step {
        (self, ChangeModel::quiet(channel, 0, ChangeReason::WsStateUpdate))
    }

    /// An operation on a room that it may open.
    pub open spec fn step(self, channel: Uuid, outcome: Outcome) -> Step {
        (self.stored(channel, outcome.0), outcome.1)
    }

    /// An operation on a room that it may close.
    pub open spec fn settling_step(self, channel: Uuid, outcome: Outcome) -> Step {
        (self.settled(channel, outcome), reported(outcome))
    }

    pub open spec fn joined(self, channel: Uuid, user: Uuid, sid: Seq<char>, now: Reading) -> Step {
        self.step(channel, self.opened(channel).joined(channel, user, sid, now))
    }

    pub open spec fn left(self, channel: Uuid, user: Uuid, sid: Seq<char>) -> Step {
        if self.rooms.contains_key(channel) {
            self.settling_step(channel, self.rooms[channel].left(channel, user, sid))
        } else {
            self.missed(channel)
        }
    }

    /// The other channels that `user` is in.
    pub open spec fn elsewhere(self, channel: Uuid, user: Uuid) -> Set<Uuid> {
        self.rooms.dom().filter(
            |c: Uuid| c != channel && self.rooms[c].participants.contains_key(user),
        )
    }

    /// The registry once `user` is out of every channel but `channel`.
    pub open spec fn evicted(self, channel: Uuid, user: Uuid) -> Self {
        self.settled_all(
            self.elsewhere(channel, user),
            |c: Uuid| self.rooms[c].evicted(c, user),
        )
    }

    /// What is reported of that, in the order of the channels.
    pub open spec fn evictions(self, channel: Uuid, user: Uuid) -> Seq<ChangeModel> {
        sorted_ids(self.elsewhere(channel, user)).map_values(
            |c: Uuid| reported(self.rooms[c].evicted(c, user)),
        )
    }

    pub open spec fn joined_exclusive(
        self,
        channel: Uuid,
        user: Uuid,
        sid: Seq<char>,
        now: Reading,
    ) -> (Self, Seq<ChangeModel>) {
        let (after, change) = self.evicted(channel, user).joined(channel, user, sid, now);
        if change.is_empty() {
            (after, self.evictions(channel, user))
        } else {
            (after, self.evictions(channel, user).push(change))
        }
    }

    pub open spec fn published(
        self,
        channel: Uuid,
        user: Uuid,
        session: Option<Seq<char>>,
        sid: Seq<char>,
        source: TrackSource,
        now: Reading,
    ) -> Step {
        self.step(
            channel,
            self.opened(channel).published(channel, user, session, sid, source, now),
        )
    }

    pub open spec fn unpublished(self, channel: Uuid, sid: Seq<char>) -> Step {
        if self.rooms.contains_key(channel) {
            self.step(channel, self.rooms[channel].unpublished(channel, sid))
        } else {
            self.missed(channel)
        }
    }

    pub open spec fn track_muted(self, channel: Uuid, sid: Seq<char>, muted: bool) -> Step {
        if self.rooms.contains_key(channel) {
            self.step(channel, self.rooms[channel].track_muted(channel, sid, muted))
        } else {
            self.missed(channel)
        }
    }

    pub open spec fn reconciled(self, channel: Uuid, live: Seq<LiveParticipant>, now: Reading) -> Step {
        self.settling_step(channel, self.opened(channel).reconciled(channel, live, now))
    }

    /// The rooms that LiveKit does not report.
    pub open spec fn unreported(self, live: Set<Uuid>) -> Set<Uuid> {
        self.rooms.dom().filter(|c: Uuid| !live.contains(c))
    }

    pub open spec fn pruned(self, live: Set<Uuid>) -> (Self, Seq<ChangeModel>) {
        let outcome = |c: Uuid| self.rooms[c].closed(c, ChangeReason::ReconcileRemoved);
        let dead = self.unreported(live);
        (
            self.settled_all(dead, outcome),
            sorted_ids(dead).map_values(|c: Uuid| reported(outcome(c))),
        )
    }

    pub open spec fn hint_joined(
        self,
        channel: Uuid,
        user: Uuid,
        sid: Option<Seq<char>>,
        is_bot: bool,
        now: Reading,
    ) -> Step {
        self.step(channel, self.opened(channel).hint_joined(channel, user, sid, is_bot, now))
    }

    pub open spec fn hint_left(self, channel: Uuid, user: Uuid) -> Step {
        if self.rooms.contains_key(channel) {
            self.settling_step(channel, self.rooms[channel].hint_left(channel, user))
        } else {
            self.missed(channel)
        }
    }

    /// Is `user` in `channel`, confirmed by LiveKit?
    pub open spec fn has_confirmed(self, channel: Uuid, user: Uuid) -> bool {
        self.rooms.contains_key(channel) && self.rooms[channel].has_confirmed(user)
    }

    pub open spec fn track_hinted(
        self,
        channel: Uuid,
        user: Uuid,
        sid: Seq<char>,
        source: TrackSource,
        published: bool,
    ) -> Result<Step, HintError> {
        let outcome = if !self.rooms.contains_key(channel) {
            Err(
                if published {
                    HintError::NotInCall
                } else {
                    HintError::TrackNotFound
                },
            )
        } else if published {
            self.rooms[channel].hint_published(channel, user, sid, source)
        } else {
            self.rooms[channel].hint_unpublished(channel, user, sid)
        };
        match outcome {
            Ok(o) => Ok(self.step(channel, o)),
            Err(e) => Err(e),
        }
    }

    pub open spec fn audio_set(
        self,
        channel: Uuid,
        user: Uuid,
        muted: Option<bool>,
        deafened: Option<bool>,
    ) -> Result<Step, HintError> {
        if !self.rooms.contains_key(channel) {
            Err(HintError::NotInCall)
        } else {
            match self.rooms[channel].audio_set(channel, user, muted, deafened) {
                Ok(o) => Ok(self.step(channel, o)),
                Err(e) => Err(e),
            }
        }
    }

    pub open spec fn music_set(self, channel: Uuid, playing: bool) -> Step {
        if playing || self.rooms.contains_key(channel) {
            self.step(channel, self.opened(channel).music_set(channel, playing))
        } else {
            self.missed(channel)
        }
    }

    /// The rooms with a provisional row that is too old.
    pub open spec fn aging(self, now: i128) -> Set<Uuid> {
        self.rooms.dom().filter(|c: Uuid| !(self.rooms[c].expired_at(now) =~= Set::empty()))
    }

    pub open spec fn expired(self, now: i128) -> (Self, Seq<ChangeModel>) {
        let outcome = |c: Uuid| self.rooms[c].expired(c, now);
        (
            self.settled_all(self.aging(now), outcome),
            sorted_ids(self.aging(now)).map_values(|c: Uuid| reported(outcome(c))),
        )
    }

    pub open spec fn channel_closed(self, channel: Uuid) -> Step {
        if self.rooms.contains_key(channel) {
            self.settling_step(channel, self.rooms[channel].closed(channel, ChangeReason::ChannelDeleted))
        } else {
            self.missed(channel)
        }
    }

    /// The registry that has seen the event `key`. Of the events only the
    /// last `SEEN_EVENTS_CAP` are remembered.
    pub open spec fn having_seen(self, key: Seq<char>) -> Self {
        if self.seen.contains(key) {
            self
        } else if self.seen.len() < SEEN_EVENTS_CAP {
            RegistryModel { seen: self.seen.push(key), ..self }
        } else {
            RegistryModel { seen: self.seen.push(key).skip(1), ..self }
        }
    }
}

} // verus!
