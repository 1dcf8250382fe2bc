//! Every operation keeps a room, and a registry, valid.

use vstd::prelude::*;

use crate::clock::Reading;
use crate::ident::{Uuid, MUSIC_BOT_ID};
use crate::voice::model::{
    by_sid, closes, live_rows, live_users, music_row, music_sid, LiveParticipant, Outcome,
    ParticipantModel, RegistryModel, RoomModel, Seating, TrackModel,
};
use crate::voice::reconcile::{lemma_by_sid_finite, lemma_without_users_valid};
use crate::voice::types::{ChangeReason, TrackSource};

verus! {

/// A room stays valid with another row in it.
pub proof fn lemma_with_participant_valid(room: RoomModel, p: ParticipantModel)
    requires
        room.valid(),
        p.sid is None <==> p.provisional_since is Some,
    ensures
        room.with_participant(p).valid(),
{
    let after = room.with_participant(p);
    assert(after.participants.dom() =~= room.participants.dom().insert(p.user_id));
}

/// A room stays valid with another track in it, if its owner is there.
pub proof fn lemma_with_track_valid(room: RoomModel, t: TrackModel)
    requires
        room.valid(),
        room.participants.contains_key(t.owner) || (t.owner == MUSIC_BOT_ID && t.source
            == TrackSource::Music),
    ensures
        room.with_track(t).valid(),
{
    let after = room.with_track(t);
    assert(after.tracks.dom() =~= room.tracks.dom().insert(t.sid));
}

/// A room stays valid without a track.
pub proof fn lemma_without_track_valid(room: RoomModel, sid: Seq<char>)
    requires
        room.valid(),
    ensures
        room.without_track(sid).valid(),
{
    let after = room.without_track(sid);
    assert(after.tracks.dom() =~= room.tracks.dom().remove(sid));
}

/// A new room is valid.
pub proof fn lemma_fresh_valid(version: nat)
    ensures
        RoomModel::fresh(version).valid(),
{
    let room = RoomModel::fresh(version);
    assert(room.participants.dom() =~= Set::empty());
    assert(room.tracks.dom() =~= Set::empty());
}

pub proof fn lemma_joined_valid(room: RoomModel, channel: Uuid, user: Uuid, sid: Seq<char>, now: Reading)
    requires
        room.valid(),
    ensures
        room.joined(channel, user, sid, now).0.valid(),
{
    if room.participants.contains_key(user) {
        lemma_with_participant_valid(room, room.participants[user].confirmed(sid));
    } else {
        lemma_with_participant_valid(
            room,
            ParticipantModel::fresh(user, Some(sid), user == MUSIC_BOT_ID, now),
        );
    }
}

pub proof fn lemma_left_valid(room: RoomModel, channel: Uuid, user: Uuid, sid: Seq<char>)
    requires
        room.valid(),
    ensures
        room.left(channel, user, sid).0.valid(),
{
    lemma_without_users_valid(room, set![user]);
}

pub proof fn lemma_published_valid(
    room: RoomModel,
    channel: Uuid,
    user: Uuid,
    session: Option<Seq<char>>,
    sid: Seq<char>,
    source: TrackSource,
    now: Reading,
)
    requires
        room.valid(),
    ensures
        room.published(channel, user, session, sid, source, now).0.valid(),
{
    if room.tracks.contains_key(sid) {
    } else if room.participants.contains_key(user) {
        let owner_sid = if session is Some {
            session
        } else {
            room.participants[user].sid
        };
        lemma_with_track_valid(room, TrackModel { sid, owner: user, owner_sid, source, muted: false });
    } else {
        let p = ParticipantModel::fresh(user, session, user == MUSIC_BOT_ID, now);
        let t = TrackModel { sid, owner: user, owner_sid: session, source, muted: false };
        lemma_with_participant_valid(room, p);
        lemma_with_track_valid(room.with_participant(p), t);
    }
}

pub proof fn lemma_unpublished_valid(room: RoomModel, channel: Uuid, sid: Seq<char>)
    requires
        room.valid(),
    ensures
        room.unpublished(channel, sid).0.valid(),
{
    lemma_without_track_valid(room, sid);
}

pub proof fn lemma_track_muted_valid(room: RoomModel, channel: Uuid, sid: Seq<char>, muted: bool)
    requires
        room.valid(),
    ensures
        room.track_muted(channel, sid, muted).0.valid(),
{
    if room.tracks.contains_key(sid) {
        lemma_with_track_valid(room, TrackModel { muted, ..room.tracks[sid] });
    }
}

pub proof fn lemma_hint_joined_valid(
    room: RoomModel,
    channel: Uuid,
    user: Uuid,
    sid: Option<Seq<char>>,
    is_bot: bool,
    now: Reading,
)
    requires
        room.valid(),
    ensures
        room.hint_joined(channel, user, sid, is_bot, now).0.valid(),
{
    if room.participants.contains_key(user) {
        if sid is Some {
            lemma_with_participant_valid(room, room.participants[user].confirmed(sid->0));
        }
    } else {
        lemma_with_participant_valid(
            room,
            ParticipantModel::fresh(user, sid, is_bot || user == MUSIC_BOT_ID, now),
        );
    }
}

pub proof fn lemma_hint_left_valid(room: RoomModel, channel: Uuid, user: Uuid)
    requires
        room.valid(),
    ensures
        room.hint_left(channel, user).0.valid(),
{
    lemma_without_users_valid(room, set![user]);
}

pub proof fn lemma_hint_published_valid(
    room: RoomModel,
    channel: Uuid,
    user: Uuid,
    sid: Seq<char>,
    source: TrackSource,
)
    requires
        room.valid(),
    ensures
        room.hint_published(channel, user, sid, source) matches Ok(o) ==> o.0.valid(),
{
    if room.participants.contains_key(user) {
        lemma_with_track_valid(
            room,
            TrackModel {
                sid,
                owner: user,
                owner_sid: room.participants[user].sid,
                source,
                muted: false,
            },
        );
    }
}

pub proof fn lemma_hint_unpublished_valid(room: RoomModel, channel: Uuid, user: Uuid, sid: Seq<char>)
    requires
        room.valid(),
    ensures
        room.hint_unpublished(channel, user, sid) matches Ok(o) ==> o.0.valid(),
{
    lemma_without_track_valid(room, sid);
}

pub proof fn lemma_audio_set_valid(
    room: RoomModel,
    channel: Uuid,
    user: Uuid,
    muted: Option<bool>,
    deafened: Option<bool>,
)
    requires
        room.valid(),
    ensures
        room.audio_set(channel, user, muted, deafened) matches Ok(o) ==> o.0.valid(),
{
    if room.participants.contains_key(user) {
        let row = room.participants[user];
        lemma_with_participant_valid(
            room,
            ParticipantModel {
                muted: muted.unwrap_or(row.muted),
                deafened: deafened.unwrap_or(row.deafened),
                ..row
            },
        );
    }
}

pub proof fn lemma_music_set_valid(room: RoomModel, channel: Uuid, playing: bool)
    requires
        room.valid(),
    ensures
        room.music_set(channel, playing).0.valid(),
{
    lemma_with_track_valid(room, music_row(channel));
    lemma_without_track_valid(room, music_sid(channel));
}

pub proof fn lemma_expired_valid(room: RoomModel, channel: Uuid, now: i128)
    requires
        room.valid(),
    ensures
        room.expired(channel, now).0.valid(),
{
    lemma_without_users_valid(room, room.expired_at(now));
}

pub proof fn lemma_closed_valid(room: RoomModel, channel: Uuid, reason: ChangeReason)
    ensures
        room.closed(channel, reason).0.valid(),
{
    lemma_fresh_valid(room.version + 1);
}

pub proof fn lemma_evicted_valid(room: RoomModel, channel: Uuid, user: Uuid)
    requires
        room.valid(),
    ensures
        room.evicted(channel, user).0.valid(),
{
    lemma_without_users_valid(room, set![user]);
}

/// Taking a list in keeps the room valid and its tracks as they were, and
/// leaves everyone of the list in the room, with everyone who was there.
pub proof fn lemma_take_in_all(seating: Seating, live: Seq<LiveParticipant>, now: Reading)
    requires
        seating.room.valid(),
    ensures
        ({
            let after = seating.take_in_all(live, now).room;
            &&& after.valid()
            &&& after.version == seating.room.version
            &&& after.tracks == seating.room.tracks
            &&& after.reconciled_at == seating.room.reconciled_at
            &&& forall|u: Uuid| #[trigger]
                after.participants.contains_key(u) <==> seating.room.participants.contains_key(u)
                    || live_users(live).contains(u)
        }),
    decreases live.len(),
{
    if live.len() == 0 {
        assert forall|u: Uuid| !live_users(live).contains(u) by {}
    } else {
        let some = seating.take_in_all(live.drop_last(), now);
        let p = live.last();
        lemma_take_in_all(seating, live.drop_last(), now);
        if !some.room.participants.contains_key(p.user_id) {
            lemma_with_participant_valid(
                some.room,
                ParticipantModel::fresh(p.user_id, Some(p.sid), p.user_id == MUSIC_BOT_ID, now),
            );
        } else {
            lemma_with_participant_valid(some.room, some.room.participants[p.user_id].confirmed(p.sid));
        }
        let after = seating.take_in_all(live, now).room;
        assert forall|u: Uuid| #[trigger]
            after.participants.contains_key(u) <==> seating.room.participants.contains_key(u)
                || live_users(live).contains(u) by {
            lemma_live_users_last(live, u);
            assert(some.room.participants.contains_key(u) <==> seating.room.participants.contains_key(u)
                || live_users(live.drop_last()).contains(u));
        }
    }
}

/// Who is in a list: the last one, and those before.
pub proof fn lemma_live_users_last(live: Seq<LiveParticipant>, u: Uuid)
    requires
        live.len() > 0,
    ensures
        live_users(live).contains(u) <==> live_users(live.drop_last()).contains(u) || u
            == live.last().user_id,
{
    let some = live.drop_last();
    if live_users(live).contains(u) {
        let i = choose|i: int| 0 <= i < live.len() && (#[trigger] live[i]).user_id == u;
        if i < some.len() {
            assert(some[i].user_id == u);
        }
    }
    if live_users(some).contains(u) {
        let i = choose|i: int| 0 <= i < some.len() && (#[trigger] some[i]).user_id == u;
        assert(live[i].user_id == u);
    }
    if u == live.last().user_id {
        assert(live[live.len() - 1].user_id == u);
    }
}

/// A row that a list gives is a row of someone in the list.
proof fn lemma_live_rows_owner(live: Seq<LiveParticipant>, i: int)
    requires
        0 <= i < live_rows(live).len(),
    ensures
        live_users(live).contains(live_rows(live)[i].owner),
    decreases live.len(),
{
    let some = live.drop_last();
    lemma_live_users_last(live, live_rows(live)[i].owner);
    if i < live_rows(some).len() {
        lemma_live_rows_owner(some, i);
    }
}

/// What `by_sid` finds is one of the rows, and has the SID by which it was
/// found.
pub proof fn lemma_by_sid_row(rows: Seq<TrackModel>, sid: Seq<char>) -> (i: int)
    requires
        by_sid(rows).contains_key(sid),
    ensures
        0 <= i < rows.len(),
        rows[i] == by_sid(rows)[sid],
        rows[i].sid == sid,
    decreases rows.len(),
{
    if rows.last().sid == sid {
        rows.len() - 1
    } else {
        lemma_by_sid_row(rows.drop_last(), sid)
    }
}

/// A listed track has its SID and an owner who is in the list.
pub proof fn lemma_listed_row(live: Seq<LiveParticipant>, sid: Seq<char>)
    requires
        by_sid(live_rows(live)).contains_key(sid),
    ensures
        by_sid(live_rows(live))[sid].sid == sid,
        live_users(live).contains(by_sid(live_rows(live))[sid].owner),
{
    let i = lemma_by_sid_row(live_rows(live), sid);
    lemma_live_rows_owner(live, i);
}

pub proof fn lemma_reconciled_valid(room: RoomModel, channel: Uuid, live: Seq<LiveParticipant>, now: Reading)
    requires
        room.valid(),
    ensures
        room.reconciled(channel, live, now).0.valid(),
{
    let gone = room.absent(live_users(live), now.mono);
    let start = Seating {
        room: room.without_users(gone),
        added: Seq::empty(),
        updated: Seq::empty(),
    };
    lemma_without_users_valid(room, gone);
    lemma_take_in_all(start, live, now);
    let seated = start.take_in_all(live, now).room;
    let listed = by_sid(live_rows(live));
    let after = seated.synced(listed);
    lemma_by_sid_finite(live_rows(live));
    assert(after.tracks.dom().subset_of(seated.tracks.dom().union(listed.dom())));
    vstd::set_lib::lemma_set_subset_finite(seated.tracks.dom().union(listed.dom()), after.tracks.dom());
    assert forall|s: Seq<char>| #[trigger] after.tracks.contains_key(s) implies after.tracks[s].sid == s && (
    after.participants.contains_key(after.tracks[s].owner) || (after.tracks[s].owner == MUSIC_BOT_ID
        && after.tracks[s].source == TrackSource::Music)) by {
        if !seated.is_music_row(s) {
            lemma_listed_row(live, s);
            let owner = after.tracks[s].owner;
            assert(seated.participants.contains_key(owner));
        }
    }
}

/// A registry stays valid with another valid room in it.
pub proof fn lemma_stored_valid(m: RegistryModel, channel: Uuid, room: RoomModel)
    requires
        m.valid(),
        room.valid(),
    ensures
        m.stored(channel, room).valid(),
{
    assert(m.stored(channel, room).rooms.dom() =~= m.rooms.dom().insert(channel));
}

/// A registry stays valid after an operation that may close the room.
pub proof fn lemma_settled_valid(m: RegistryModel, channel: Uuid, outcome: Outcome)
    requires
        m.valid(),
        outcome.0.valid(),
    ensures
        m.settled(channel, outcome).valid(),
{
    if closes(outcome) {
        assert(m.settled(channel, outcome).rooms.dom() =~= m.rooms.dom().remove(channel));
    } else {
        lemma_stored_valid(m, channel, outcome.0);
    }
}

/// The room that an operation opens is valid.
pub proof fn lemma_opened_valid(m: RegistryModel, channel: Uuid)
    requires
        m.valid(),
    ensures
        m.opened(channel).valid(),
{
    lemma_fresh_valid(m.counter(channel));
}

/// Operations on different channels do not meet: to settle one more channel
/// is to settle the larger set.
pub proof fn lemma_settle_one_more(
    m: RegistryModel,
    channels: Set<Uuid>,
    outcome: spec_fn(Uuid) -> Outcome,
    channel: Uuid,
)
    requires
        !channels.contains(channel),
    ensures
        m.settled_all(channels, outcome).settled(channel, outcome(channel)) == m.settled_all(
            channels.insert(channel),
            outcome,
        ),
{
    let one = m.settled_all(channels, outcome).settled(channel, outcome(channel));
    let all = m.settled_all(channels.insert(channel), outcome);
    assert(one.rooms =~= all.rooms);
    assert(one.retired =~= all.retired);
}

/// To put a room in place of one that was taken out is to store it.
pub proof fn lemma_put_back(m: RegistryModel, channel: Uuid, room: RoomModel)
    ensures
        (RegistryModel { rooms: m.rooms.remove(channel), ..m }).stored(channel, room) == m.stored(
            channel,
            room,
        ),
{
    let without = RegistryModel { rooms: m.rooms.remove(channel), ..m };
    assert(without.stored(channel, room).rooms =~= m.stored(channel, room).rooms);
}

/// To settle a channel whose room was taken out is to settle the channel.
pub proof fn lemma_put_back_settled(m: RegistryModel, channel: Uuid, outcome: Outcome)
    ensures
        (RegistryModel { rooms: m.rooms.remove(channel), ..m }).settled(channel, outcome) == m.settled(
            channel,
            outcome,
        ),
{
    let without = RegistryModel { rooms: m.rooms.remove(channel), ..m };
    assert(without.settled(channel, outcome).rooms =~= m.settled(channel, outcome).rooms);
}

/// A registry stays valid after operations on many channels.
pub proof fn lemma_settled_all_valid(m: RegistryModel, channels: Set<Uuid>, outcome: spec_fn(Uuid) -> Outcome)
    requires
        m.valid(),
        channels.subset_of(m.rooms.dom()),
        forall|c: Uuid| channels.contains(c) ==> (#[trigger] outcome(c)).0.valid(),
    ensures
        m.settled_all(channels, outcome).valid(),
{
    let after = m.settled_all(channels, outcome);
    assert(after.rooms.dom().subset_of(m.rooms.dom()));
    vstd::set_lib::lemma_set_subset_finite(m.rooms.dom(), after.rooms.dom());
    assert forall|c: Uuid| #[trigger] after.rooms.contains_key(c) implies after.rooms[c].valid() by {
        if channels.contains(c) {
            assert(outcome(c).0.valid());
        } else {
            assert(m.rooms.contains_key(c));
        }
    }
}

/// To settle no channel is to do nothing.
pub proof fn lemma_settle_none(m: RegistryModel, outcome: spec_fn(Uuid) -> Outcome)
    ensures
        m.settled_all(Set::empty(), outcome) == m,
{
    let none = m.settled_all(Set::empty(), outcome);
    assert(none.rooms =~= m.rooms);
    assert(none.retired =~= m.retired);
}

} // verus!
