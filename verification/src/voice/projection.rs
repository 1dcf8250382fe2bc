//! Rooms and changes as clients see them. What a client sees is a function of
//! the state alone: participants are in the order of their identifiers, and
//! tracks in that of their SIDs.

use vstd::prelude::*;

use crate::clock::UtcTime;
use crate::ident::{copy_ids, Uuid};
use crate::listing::{id_order, lists, sorted_ids, sorted_keys, sorted_texts};
use crate::protocol::{
    OutboundEnvelope, Payload, StreamDto, VoiceParticipantDto, VoiceRoomDelta, VoiceRoomDto,
    VoiceRoster, VoiceRosterEntry, VoiceTrackDto,
};
use crate::text::{copy_optional, copy_texts, optional_text, texts};
use crate::voice::model::{ChangeModel, ParticipantModel, RoomModel, TrackModel};
use crate::voice::registry::VoiceRegistry;
use crate::voice::room::VoiceRoom;
use crate::voice::shown::{shows_participant, shows_track};
use crate::voice::types::{
    participant_rows, track_rows, ChannelId, RoomChange, UserId, VoiceParticipant, VoiceTrack,
};

verus! {

broadcast use vstd::std_specs::hash::group_hash_axioms;

/// A participant as a client sees it.
#[verifier::ext_equal]
pub struct ParticipantShown {
    pub user_id: Uuid,
    pub participant_sid: Option<Seq<char>>,
    pub muted: bool,
    pub deafened: bool,
    pub is_bot: bool,
    pub provisional: bool,
    pub joined_at: UtcTime,
}

/// A track as a client sees it.
#[verifier::ext_equal]
pub struct TrackShown {
    pub track_sid: Seq<char>,
    pub owner: Uuid,
    pub owner_sid: Option<Seq<char>>,
    pub source: Seq<char>,
    pub muted: bool,
}

/// A room as a client sees it.
#[verifier::ext_equal]
pub struct RoomShown {
    pub channel_id: Uuid,
    pub version: nat,
    pub participants: Seq<ParticipantShown>,
    pub tracks: Seq<TrackShown>,
}

/// A change as a client sees it.
#[verifier::ext_equal]
pub struct DeltaShown {
    pub channel_id: Uuid,
    pub version: nat,
    pub previous_version: nat,
    pub participants_added: Seq<ParticipantShown>,
    pub participants_updated: Seq<ParticipantShown>,
    pub participants_removed: Seq<Uuid>,
    pub tracks_added: Seq<TrackShown>,
    pub tracks_removed: Seq<Seq<char>>,
    pub reason: Seq<char>,
}

impl ParticipantModel {
    /// What a client sees of it.
    pub open spec fn shown(self) -> ParticipantShown {
        ParticipantShown {
            user_id: self.user_id,
            participant_sid: self.sid,
            muted: self.muted,
            deafened: self.deafened,
            is_bot: self.is_bot,
            provisional: self.is_provisional(),
            joined_at: self.joined_at,
        }
    }
}

impl TrackModel {
    /// What a client sees of it.
    pub open spec fn shown(self) -> TrackShown {
        TrackShown {
            track_sid: self.sid,
            owner: self.owner,
            owner_sid: self.owner_sid,
            source: self.source.wire(),
            muted: self.muted,
        }
    }
}

impl RoomModel {
    /// What a client sees of it.
    pub open spec fn shown(self, channel: Uuid) -> RoomShown {
        RoomShown {
            channel_id: channel,
            version: self.version,
            participants: sorted_ids(self.participants.dom()).map_values(
                |u: Uuid| self.participants[u].shown(),
            ),
            tracks: sorted_texts(self.tracks.dom()).map_values(
                |s: Seq<char>| self.tracks[s].shown(),
            ),
        }
    }
}

impl ChangeModel {
    /// What a client sees of it.
    pub open spec fn shown(self) -> DeltaShown {
        DeltaShown {
            channel_id: self.channel_id,
            version: self.version_after,
            previous_version: self.version_before,
            participants_added: self.participants_added.map_values(|p: ParticipantModel| p.shown()),
            participants_updated: self.participants_updated.map_values(
                |p: ParticipantModel| p.shown(),
            ),
            participants_removed: self.participants_removed,
            tracks_added: self.tracks_added.map_values(|t: TrackModel| t.shown()),
            tracks_removed: self.tracks_removed,
            reason: self.reason.wire(),
        }
    }
}

impl View for VoiceParticipantDto {
    type V = ParticipantShown;

    open spec fn view(&self) -> ParticipantShown {
        ParticipantShown {
            user_id: self.user_id,
            participant_sid: optional_text(self.participant_sid),
            muted: self.muted,
            deafened: self.deafened,
            is_bot: self.is_bot,
            provisional: self.provisional,
            joined_at: self.joined_at,
        }
    }
}

impl View for VoiceTrackDto {
    type V = TrackShown;

    open spec fn view(&self) -> TrackShown {
        TrackShown {
            track_sid: self.track_sid@,
            owner: self.owner,
            owner_sid: optional_text(self.owner_sid),
            source: self.source@,
            muted: self.muted,
        }
    }
}

/// What a client sees of a list of participants.
pub open spec fn participants_shown(s: Seq<VoiceParticipantDto>) -> Seq<ParticipantShown> {
    Seq::new(s.len(), |i: int| s[i]@)
}

/// What a client sees of a list of tracks.
pub open spec fn tracks_shown(s: Seq<VoiceTrackDto>) -> Seq<TrackShown> {
    Seq::new(s.len(), |i: int| s[i]@)
}

impl View for VoiceRoomDto {
    type V = RoomShown;

    open spec fn view(&self) -> RoomShown {
        RoomShown {
            channel_id: self.channel_id,
            version: self.version as nat,
            participants: participants_shown(self.participants@),
            tracks: tracks_shown(self.tracks@),
        }
    }
}

impl View for VoiceRoomDelta {
    type V = DeltaShown;

    open spec fn view(&self) -> DeltaShown {
        DeltaShown {
            channel_id: self.channel_id,
            version: self.version as nat,
            previous_version: self.previous_version as nat,
            participants_added: participants_shown(self.participants_added@),
            participants_updated: participants_shown(self.participants_updated@),
            participants_removed: self.participants_removed@,
            tracks_added: tracks_shown(self.tracks_added@),
            tracks_removed: texts(self.tracks_removed@),
            reason: self.reason@,
        }
    }
}

impl VoiceParticipant {
    /// What a client sees of this row.
    pub fn to_dto(&self) -> (r: VoiceParticipantDto)
        ensures
            r@ == self@.shown(),
            shows_participant(r, *self),
    {
        VoiceParticipantDto {
            user_id: self.user_id,
            participant_sid: copy_optional(&self.sid),
            muted: self.muted,
            deafened: self.deafened,
            is_bot: self.is_bot,
            provisional: self.is_provisional(),
            joined_at: self.joined_at,
        }
    }
}

impl VoiceTrack {
    /// What a client sees of this row.
    pub fn to_dto(&self) -> (r: VoiceTrackDto)
        ensures
            r@ == self@.shown(),
            shows_track(r, *self),
    {
        VoiceTrackDto {
            track_sid: self.sid.clone(),
            owner: self.owner,
            owner_sid: copy_optional(&self.owner_sid),
            source: self.source.as_wire().to_string(),
            muted: self.muted,
        }
    }
}

/// What a client sees of a list of participants.
fn participant_dtos(rows: &Vec<VoiceParticipant>) -> (r: Vec<VoiceParticipantDto>)
    ensures
        participants_shown(r@) == participant_rows(rows@).map_values(|p: ParticipantModel| p.shown()),
{
    let mut out: Vec<VoiceParticipantDto> = Vec::new();
    for i in 0..rows.len()
        invariant
            out@.len() == i,
            forall|j: int| 0 <= j < i ==> (#[trigger] out@[j])@ == rows@[j]@.shown(),
    {
        out.push(rows[i].to_dto());
    }
    assert(participants_shown(out@) =~= participant_rows(rows@).map_values(
        |p: ParticipantModel| p.shown(),
    ));
    out
}

/// What a client sees of a list of tracks.
fn track_dtos(rows: &Vec<VoiceTrack>) -> (r: Vec<VoiceTrackDto>)
    ensures
        tracks_shown(r@) == track_rows(rows@).map_values(|t: TrackModel| t.shown()),
{
    let mut out: Vec<VoiceTrackDto> = Vec::new();
    for i in 0..rows.len()
        invariant
            out@.len() == i,
            forall|j: int| 0 <= j < i ==> (#[trigger] out@[j])@ == rows@[j]@.shown(),
    {
        out.push(rows[i].to_dto());
    }
    assert(tracks_shown(out@) =~= track_rows(rows@).map_values(|t: TrackModel| t.shown()));
    out
}

impl VoiceRoom {
    /// What a client sees of this room. Two rooms of equal state give equal
    /// results.
    pub fn to_dto(&self, channel_id: ChannelId) -> (r: VoiceRoomDto)
        requires
            self.wf(),
        ensures
            r@ == self@.shown(channel_id),
    {
        let keys: Vec<UserId> = sorted_keys(&self.participants);
        let mut participants: Vec<VoiceParticipantDto> = Vec::new();
        for i in 0..keys.len()
            invariant
                lists(keys@, self.participants@.dom(), id_order()),
                participants@.len() == i,
                forall|j: int|
                    0 <= j < i ==> (#[trigger] participants@[j])@ == self@.participants[keys@[j]].shown(),
        {
            proof {
                assert(keys@.contains(keys@[i as int]));
                assert(self.participants@.dom().contains(keys@[i as int]));
            }
            if let Some(row) = self.participants.get(&keys[i]) {
                participants.push(row.to_dto());
            }
        }
        let tracks: Vec<VoiceTrackDto> = track_dtos(self.tracks.values());
        let r = VoiceRoomDto { channel_id, version: self.version, participants, tracks };
        proof {
            assert(self.participants@.dom() =~= self@.participants.dom());
            assert(r@.participants =~= self@.shown(channel_id).participants);
            assert(r@.tracks =~= self@.shown(channel_id).tracks);
        }
        r
    }
}

impl RoomChange {
    /// What a client sees of this change.
    pub fn to_delta(&self) -> (r: VoiceRoomDelta)
        ensures
            r@ == self@.shown(),
    {
        let r = VoiceRoomDelta {
            channel_id: self.channel_id,
            version: self.version_after,
            previous_version: self.version_before,
            participants_added: participant_dtos(&self.participants_added),
            participants_updated: participant_dtos(&self.participants_updated),
            participants_removed: copy_ids(&self.participants_removed),
            tracks_added: track_dtos(&self.tracks_added),
            tracks_removed: copy_texts(&self.tracks_removed),
            reason: self.reason.as_wire().to_string(),
        };
        assert(r@ =~= self@.shown());
        r
    }
}

/// The message by which clients of the second dialect hear of a change, with
/// the versions that it leads from and to. Nobody hears of an empty one.
pub fn publish_room_change(change: &RoomChange) -> (r: Option<OutboundEnvelope>)
    ensures
        r is None <==> change@.is_empty(),
        r matches Some(m) ==> {
            &&& m.data is VoiceRoomDelta
            &&& m.data->VoiceRoomDelta_0@ == change@.shown()
            &&& m.is_message("voice.room.delta"@, m.data)
        },
{
    if change.is_empty() {
        None
    } else {
        Some(OutboundEnvelope::new("voice.room.delta", Payload::VoiceRoomDelta(change.to_delta())))
    }
}

/// The message by which clients of the first dialect hear of a change: the
/// whole roster of the channel.
pub fn roster_message(channel_id: ChannelId, participants: Vec<VoiceRosterEntry>, streams: Vec<StreamDto>) -> (r:
    OutboundEnvelope)
    ensures
        r.is_message(
            "voice.roster"@,
            Payload::VoiceRoster(VoiceRoster { channel_id, participants, streams }),
        ),
{
    OutboundEnvelope::new(
        "voice.roster",
        Payload::VoiceRoster(VoiceRoster { channel_id, participants, streams }),
    )
}

/// The channels of a list of rooms.
pub open spec fn channels_shown(s: Seq<VoiceRoomDto>) -> Seq<Uuid> {
    Seq::new(s.len(), |i: int| s[i].channel_id)
}

/// Inserting an item adds it to the items.
proof fn lemma_insert_multiset(s: Seq<Uuid>, i: int, x: Uuid)
    requires
        0 <= i <= s.len(),
    ensures
        s.insert(i, x).to_multiset() =~= s.to_multiset().insert(x),
{
    broadcast use vstd::seq_lib::group_to_multiset_ensures;

    let t = s.insert(i, x);
    assert(t[i] == x);
    assert(t.contains(x));
    assert(t.remove(i) =~= s);
    assert(s.to_multiset() == t.to_multiset().remove(x));
}

impl VoiceRegistry {
    /// What a client sees of the rooms of the given channels, in the order of
    /// the channels. A channel without a room is passed over.
    pub fn room_dtos(&self, channel_ids: &[ChannelId]) -> (r: Vec<VoiceRoomDto>)
        requires
            self.indexed(),
        ensures
            forall|i: int|
                0 <= i < r@.len() ==> {
                    &&& self@.rooms.contains_key((#[trigger] r@[i]).channel_id)
                    &&& r@[i]@ == self@.rooms[r@[i].channel_id].shown(r@[i].channel_id)
                },
            forall|i: int, j: int|
                0 <= i < j < r@.len() ==> (#[trigger] r@[i]).channel_id <= (#[trigger] r@[j]).channel_id,
            channels_shown(r@).to_multiset() =~= channel_ids@.filter(
                |c: Uuid| self@.rooms.contains_key(c),
            ).to_multiset(),
    {
        let mut out: Vec<VoiceRoomDto> = Vec::new();
        let ghost p = |c: Uuid| self@.rooms.contains_key(c);
        proof {
            reveal(Seq::filter);
            assert(channels_shown(out@) =~= Seq::empty());
            assert(channel_ids@.take(0).filter(p) =~= Seq::empty());
        }
        for i in 0..channel_ids.len()
            invariant
                self.indexed(),
                p == (|c: Uuid| self@.rooms.contains_key(c)),
                forall|i: int|
                    0 <= i < out@.len() ==> {
                        &&& self@.rooms.contains_key((#[trigger] out@[i]).channel_id)
                        &&& out@[i]@ == self@.rooms[out@[i].channel_id].shown(out@[i].channel_id)
                    },
                forall|i: int, j: int|
                    0 <= i < j < out@.len() ==> (#[trigger] out@[i]).channel_id <= (
                    #[trigger] out@[j]).channel_id,
                channels_shown(out@).to_multiset() =~= channel_ids@.take(i as int).filter(p).to_multiset(),
        {
            let c: ChannelId = channel_ids[i];
            proof {
                reveal(Seq::filter);
                let some = channel_ids@.take(i as int);
                let more = channel_ids@.take(i + 1);
                assert(more.drop_last() =~= some);
                assert(more.last() == c);
                vstd::seq_lib::to_multiset_build(some.filter(p), c);
            }
            if let Some(room) = self.room(c) {
                let dto: VoiceRoomDto = room.to_dto(c);
                let mut at: usize = 0;
                while at < out.len() && out[at].channel_id <= c
                    invariant
                        at <= out@.len(),
                        forall|j: int| 0 <= j < at ==> (#[trigger] out@[j]).channel_id <= c,
                    decreases out@.len() - at,
                {
                    at += 1;
                }
                let ghost before = out@;
                out.insert(at, dto);
                proof {
                    assert(channels_shown(out@) =~= channels_shown(before).insert(at as int, c));
                    lemma_insert_multiset(channels_shown(before), at as int, c);
                    assert forall|j: int, k: int| 0 <= j < k < out@.len() implies (#[trigger] out@[j]).channel_id <= (
                    #[trigger] out@[k]).channel_id by {
                        let x = if j < at { j } else { j - 1 };
                        let y = if k < at { k } else { k - 1 };
                        if j != at {
                            assert(out@[j] == before[x]);
                        }
                        if k != at {
                            assert(out@[k] == before[y]);
                        }
                        if at < before.len() {
                            assert(before[at as int].channel_id > c);
                        }
                    }
                    assert forall|k: int| 0 <= k < out@.len() implies {
                        &&& self@.rooms.contains_key((#[trigger] out@[k]).channel_id)
                        &&& out@[k]@ == self@.rooms[out@[k].channel_id].shown(out@[k].channel_id)
                    } by {
                        let y = if k < at { k } else { k - 1 };
                        if k != at {
                            assert(out@[k] == before[y]);
                        }
                    }
                }
            }
        }
        assert(channel_ids@.take(channel_ids@.len() as int) =~= channel_ids@);
        out
    }
}

} // verus!
