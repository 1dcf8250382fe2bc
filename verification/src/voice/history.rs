//! What holds of a registry over its whole life, whatever is done to it, and
//! what clients know of it who follow its changes.
//!
//! A room that closes is forgotten with all that is in it. A client learns of
//! everyone and everything that the last leave takes out, but a music row
//! whose bot is not in the room is not told of then: a client that follows by
//! changes keeps such a row until its next snapshot. What is stated here of a
//! closing room is stated of one that has no track left.

use vstd::prelude::*;

use crate::clock::{Reading, UtcTime};
use crate::ident::{Uuid, MUSIC_BOT_ID};
use crate::listing::{id_order, lemma_listing_exists, sorted_ids};
use crate::voice::delta::{
    law_joined_told, law_left_told, law_own_state_told, law_presence_hint_told, law_published_told,
    law_reconciled_told, law_track_hint_told, law_track_told, law_upkeep_told, put_all,
    put_all_tracks, tells, Reception,
};
use crate::voice::laws::law_seen_event_known;
use crate::voice::model::{
    closes, music_row, music_sid, reported, ChangeModel, LiveParticipant, Outcome, RegistryModel,
    RoomModel, Step,
};
use crate::voice::types::{ChangeReason, TrackSource};
use crate::voice::validity::{
    lemma_audio_set_valid, lemma_closed_valid, lemma_evicted_valid, lemma_expired_valid,
    lemma_hint_joined_valid, lemma_hint_left_valid, lemma_hint_published_valid,
    lemma_hint_unpublished_valid, lemma_joined_valid, lemma_left_valid, lemma_music_set_valid,
    lemma_opened_valid, lemma_published_valid, lemma_reconciled_valid, lemma_settled_all_valid,
    lemma_settled_valid, lemma_stored_valid, lemma_track_muted_valid, lemma_unpublished_valid,
};

verus! {

/// Whatever can be done to a registry.
pub enum Operation {
    Join { channel: Uuid, user: Uuid, sid: Seq<char>, now: Reading },
    JoinExclusive { channel: Uuid, user: Uuid, sid: Seq<char>, now: Reading },
    Leave { channel: Uuid, user: Uuid, sid: Seq<char> },
    Publish {
        channel: Uuid,
        user: Uuid,
        session: Option<Seq<char>>,
        sid: Seq<char>,
        source: TrackSource,
        now: Reading,
    },
    Unpublish { channel: Uuid, sid: Seq<char> },
    MuteTrack { channel: Uuid, sid: Seq<char>, muted: bool },
    Reconcile { channel: Uuid, live: Seq<LiveParticipant>, now: Reading },
    Prune { live: Set<Uuid> },
    HintJoin { channel: Uuid, user: Uuid, sid: Option<Seq<char>>, is_bot: bool, now: Reading },
    HintLeave { channel: Uuid, user: Uuid },
    HintTrack { channel: Uuid, user: Uuid, sid: Seq<char>, source: TrackSource, published: bool },
    SetAudio { channel: Uuid, user: Uuid, muted: Option<bool>, deafened: Option<bool> },
    SetMusic { channel: Uuid, playing: bool },
    Expire { now: i128 },
    CloseChannel { channel: Uuid },
    SeeEvent { key: Seq<char> },
}

/// A step and the one change that it reports.
pub open spec fn one(step: Step) -> (RegistryModel, Seq<ChangeModel>) {
    (step.0, seq![step.1])
}

impl RegistryModel {
    /// The registry after an operation, and what that reports. What is
    /// refused changes nothing and reports nothing.
    pub open spec fn performed(self, op: Operation) -> (RegistryModel, Seq<ChangeModel>) {
        match op {
            Operation::Join { channel, user, sid, now } => one(self.joined(channel, user, sid, now)),
            Operation::JoinExclusive { channel, user, sid, now } => self.joined_exclusive(
                channel,
                user,
                sid,
                now,
            ),
            Operation::Leave { channel, user, sid } => one(self.left(channel, user, sid)),
            Operation::Publish { channel, user, session, sid, source, now } => one(
                self.published(channel, user, session, sid, source, now),
            ),
            Operation::Unpublish { channel, sid } => one(self.unpublished(channel, sid)),
            Operation::MuteTrack { channel, sid, muted } => one(self.track_muted(channel, sid, muted)),
            Operation::Reconcile { channel, live, now } => one(self.reconciled(channel, live, now)),
            Operation::Prune { live } => self.pruned(live),
            Operation::HintJoin { channel, user, sid, is_bot, now } => one(
                self.hint_joined(channel, user, sid, is_bot, now),
            ),
            Operation::HintLeave { channel, user } => one(self.hint_left(channel, user)),
            Operation::HintTrack { channel, user, sid, source, published } => match self.track_hinted(
                channel,
                user,
                sid,
                source,
                published,
            ) {
                Ok(step) => one(step),
                Err(_) => (self, Seq::empty()),
            },
            Operation::SetAudio { channel, user, muted, deafened } => match self.audio_set(
                channel,
                user,
                muted,
                deafened,
            ) {
                Ok(step) => one(step),
                Err(_) => (self, Seq::empty()),
            },
            Operation::SetMusic { channel, playing } => one(self.music_set(channel, playing)),
            Operation::Expire { now } => self.expired(now),
            Operation::CloseChannel { channel } => one(self.channel_closed(channel)),
            Operation::SeeEvent { key } => (self.having_seen(key), Seq::empty()),
        }
    }

    /// The registry after many operations, one after the other.
    pub open spec fn performed_all(self, ops: Seq<Operation>) -> RegistryModel
        decreases ops.len(),
    {
        if ops.len() == 0 {
            self
        } else {
            self.performed_all(ops.drop_last()).performed(ops.last()).0
        }
    }
}

/// Does `d` close a room in which a track is left?
pub open spec fn drops_a_track(m: RegistryModel, d: ChangeModel) -> bool {
    d.room_closed && exists|s: Seq<char>| #[trigger]
        m.opened(d.channel_id).known().applied(d).tracks.contains_key(s)
}

/// Does a change lead from the version that its channel had to the one that
/// it has now, and a client that receives it to the room that came of it?
pub open spec fn followed(m: RegistryModel, after: RegistryModel, d: ChangeModel) -> bool {
    let c = d.channel_id;
    &&& d.version_before == m.counter(c)
    &&& d.version_after == after.counter(c)
    &&& d.version_before < d.version_after
    &&& !drops_a_track(m, d) ==> m.opened(c).known().receives(d) == Reception::Applied(
        after.opened(c).known(),
    )
}

/// Is `c` the channel of a change that is not empty?
pub open spec fn is_told(changes: Seq<ChangeModel>, c: Uuid) -> bool {
    exists|i: int| 0 <= i < changes.len() && (#[trigger] changes[i]).channel_id == c && !changes[i].is_empty()
}

/// Do the changes account for all that became of the registry? Each one is
/// followed, and a channel that none of them is about is as it was.
pub open spec fn accounted(m: RegistryModel, after: RegistryModel, changes: Seq<ChangeModel>) -> bool {
    &&& forall|i: int|
        0 <= i < changes.len() && !(#[trigger] changes[i]).is_empty() ==> followed(m, after, changes[i])
    &&& forall|c: Uuid|
        !is_told(changes, c) ==> #[trigger] after.opened(c).known() == m.opened(c).known()
    &&& forall|c: Uuid| m.counter(c) <= #[trigger] after.counter(c)
}

/// Does `outcome` say of the room of `channel` what it does to it?
spec fn proper(room: RoomModel, channel: Uuid, outcome: Outcome) -> bool {
    &&& outcome.0.valid()
    &&& outcome.1.channel_id == channel
    &&& tells(room, outcome)
    &&& room.version <= outcome.0.version
    &&& outcome.1.is_empty() ==> outcome.0.known() == room.known()
}

/// The room of a channel that was settled, in one step or among many.
proof fn lemma_settled_room(m: RegistryModel, channel: Uuid, outcome: Outcome)
    requires
        proper(m.opened(channel), channel, outcome),
    ensures
        ({
            let after = m.settled(channel, outcome);
            let d = reported(outcome);
            &&& after.counter(channel) == outcome.0.version
            &&& !d.is_empty() ==> followed(m, after, d)
            &&& d.is_empty() ==> after.opened(channel).known() == m.opened(channel).known()
        }),
{
    let after = m.settled(channel, outcome);
    let d = reported(outcome);
    let room = m.opened(channel);
    assert(room.known().applied(d) == room.known().applied(outcome.1));
    assert(room.version == m.counter(channel));
    if closes(outcome) && !drops_a_track(m, d) {
        assert forall|s: Seq<char>| !outcome.0.tracks.contains_key(s) by {
            assert(room.known().applied(d).tracks == outcome.0.tracks);
            if outcome.0.tracks.contains_key(s) {
                assert(room.known().applied(d).tracks.contains_key(s));
            }
        }
        assert(outcome.0.tracks =~= Map::empty());
        assert(outcome.0.participants =~= Map::empty());
        assert(after.opened(channel).known() =~= outcome.0.known());
    }
}

/// A step on one room accounts for all that it does.
proof fn lemma_step(m: RegistryModel, channel: Uuid, outcome: Outcome)
    requires
        m.valid(),
        proper(m.opened(channel), channel, outcome),
    ensures
        m.step(channel, outcome).0.valid(),
        accounted(m, one(m.step(channel, outcome)).0, one(m.step(channel, outcome)).1),
        m.settling_step(channel, outcome).0.valid(),
        accounted(m, one(m.settling_step(channel, outcome)).0, one(m.settling_step(channel, outcome)).1),
{
    lemma_stored_valid(m, channel, outcome.0);
    lemma_settled_valid(m, channel, outcome);
    lemma_settled_room(m, channel, outcome);
    let plain = m.step(channel, outcome);
    let settling = m.settling_step(channel, outcome);
    assert(m.opened(channel).version == m.counter(channel));
    assert(plain.0.opened(channel) == outcome.0);
    if !plain.1.is_empty() {
        assert(one(plain).1[0] == plain.1);
        assert(is_told(one(plain).1, channel));
    }
    if !settling.1.is_empty() {
        assert(one(settling).1[0] == settling.1);
        assert(is_told(one(settling).1, channel));
    }
    assert forall|c: Uuid| c != channel implies #[trigger] plain.0.opened(c) == m.opened(c) && plain.0.counter(c)
        == m.counter(c) by {}
    assert forall|c: Uuid| c != channel implies #[trigger] settling.0.opened(c) == m.opened(c)
        && settling.0.counter(c) == m.counter(c) by {}
}

/// What touches no room accounts for itself.
proof fn lemma_nothing(m: RegistryModel, after: RegistryModel, changes: Seq<ChangeModel>)
    requires
        after.rooms == m.rooms,
        after.retired == m.retired,
        forall|i: int| 0 <= i < changes.len() ==> (#[trigger] changes[i]).is_empty(),
    ensures
        accounted(m, after, changes),
{
    assert forall|c: Uuid| #[trigger] after.opened(c) == m.opened(c) && after.counter(c) == m.counter(c) by {}
}

/// Settling many rooms accounts for all that it does.
proof fn lemma_sweep(m: RegistryModel, channels: Set<Uuid>, f: spec_fn(Uuid) -> Outcome)
    requires
        m.valid(),
        channels.subset_of(m.rooms.dom()),
        forall|c: Uuid| #[trigger]
            channels.contains(c) ==> proper(m.rooms[c], c, f(c)) && !f(c).1.is_empty(),
    ensures
        m.settled_all(channels, f).valid(),
        accounted(
            m,
            m.settled_all(channels, f),
            sorted_ids(channels).map_values(|c: Uuid| reported(f(c))),
        ),
        forall|c: Uuid| !channels.contains(c) ==> #[trigger] m.settled_all(channels, f).opened(c) == m.opened(c)
            && m.settled_all(channels, f).counter(c) == m.counter(c),
{
    let after = m.settled_all(channels, f);
    let ids = sorted_ids(channels);
    let changes = ids.map_values(|c: Uuid| reported(f(c)));
    vstd::set_lib::lemma_set_subset_finite(m.rooms.dom(), channels);
    lemma_listing_exists(channels, id_order());
    assert forall|c: Uuid| channels.contains(c) implies (#[trigger] f(c)).0.valid() by {
        assert(proper(m.rooms[c], c, f(c)));
    }
    lemma_settled_all_valid(m, channels, f);
    assert forall|c: Uuid| !channels.contains(c) implies #[trigger] after.opened(c) == m.opened(c) && after.counter(
        c,
    ) == m.counter(c) by {}
    assert forall|c: Uuid| #[trigger] channels.contains(c) implies followed(m, after, reported(f(c)))
        && after.counter(c) == f(c).0.version && m.counter(c) <= after.counter(c) by {
        assert(m.rooms.contains_key(c));
        lemma_settled_room(m, c, f(c));
        assert(m.settled(c, f(c)).opened(c) == after.opened(c));
        assert(m.settled(c, f(c)).counter(c) == after.counter(c));
    }
    assert forall|i: int| 0 <= i < changes.len() implies followed(m, after, #[trigger] changes[i]) by {
        assert(ids.contains(ids[i]));
        assert(channels.contains(ids[i]));
    }
    assert forall|c: Uuid| channels.contains(c) implies is_told(changes, c) by {
        assert(ids.contains(c));
        let i = choose|i: int| 0 <= i < ids.len() && ids[i] == c;
        assert(changes[i] == reported(f(c)));
        assert(changes[i].channel_id == c);
    }
    assert forall|c: Uuid| m.counter(c) <= #[trigger] after.counter(c) by {
        if !channels.contains(c) {
            assert(after.opened(c) == m.opened(c));
        }
    }
}

/// A reconciliation says what it does.
proof fn lemma_reconciled_proper(room: RoomModel, channel: Uuid, live: Seq<LiveParticipant>, now: Reading)
    requires
        room.valid(),
    ensures
        proper(room, channel, room.reconciled(channel, live, now)),
{
    lemma_reconciled_valid(room, channel, live, now);
    law_reconciled_told(room, channel, live, now);
    let outcome = room.reconciled(channel, live, now);
    let d = outcome.1;
    if d.is_empty() {
        assert(room.participants.remove_keys(d.participants_removed.to_set()) =~= room.participants);
        assert(room.tracks.remove_keys(d.tracks_removed.to_set()) =~= room.tracks);
        assert(put_all(room.participants, d.participants_added) == room.participants);
        assert(put_all_tracks(room.tracks, d.tracks_added) == room.tracks);
    }
}

/// An exclusive join accounts for all that it does, here and elsewhere.
proof fn lemma_exclusive(m: RegistryModel, channel: Uuid, user: Uuid, sid: Seq<char>, now: Reading)
    requires
        m.valid(),
    ensures
        m.joined_exclusive(channel, user, sid, now).0.valid(),
        accounted(
            m,
            m.joined_exclusive(channel, user, sid, now).0,
            m.joined_exclusive(channel, user, sid, now).1,
        ),
{
    let others = m.elsewhere(channel, user);
    let f = |c: Uuid| m.rooms[c].evicted(c, user);
    let middle = m.evicted(channel, user);
    let out = m.evictions(channel, user);
    assert forall|c: Uuid| #[trigger] others.contains(c) implies proper(m.rooms[c], c, f(c)) && !f(
        c,
    ).1.is_empty() by {
        let room = m.rooms[c];
        assert(room.valid());
        lemma_evicted_valid(room, c, user);
        law_presence_hint_told(room, c, user, None, false, now);
        if room.participants[user].sid is Some {
            law_left_told(room, c, user, room.participants[user].sid->0);
        }
    }
    lemma_sweep(m, others, f);
    assert(middle == m.settled_all(others, f));
    assert(out =~= sorted_ids(others).map_values(|c: Uuid| reported(f(c))));
    let room = middle.opened(channel);
    lemma_opened_valid(middle, channel);
    lemma_joined_valid(room, channel, user, sid, now);
    law_joined_told(room, channel, user, sid, now);
    lemma_step(middle, channel, room.joined(channel, user, sid, now));
    let (after, change) = middle.joined(channel, user, sid, now);
    let changes = m.joined_exclusive(channel, user, sid, now).1;
    assert(!others.contains(channel));
    assert(middle.opened(channel) == m.opened(channel));
    assert forall|c: Uuid| c != channel implies #[trigger] after.opened(c) == middle.opened(c) && after.counter(c)
        == middle.counter(c) by {}
    assert(out.len() == sorted_ids(others).len());
    vstd::set_lib::lemma_set_subset_finite(m.rooms.dom(), others);
    lemma_listing_exists(others, id_order());
    assert forall|i: int| 0 <= i < changes.len() && !(#[trigger] changes[i]).is_empty() implies followed(
        m,
        after,
        changes[i],
    ) by {
        if i < out.len() {
            assert(changes[i] == out[i]);
            assert(followed(m, middle, out[i]));
            assert(sorted_ids(others).contains(sorted_ids(others)[i]));
            assert(others.contains(out[i].channel_id));
            assert(after.opened(out[i].channel_id) == middle.opened(out[i].channel_id));
        } else {
            assert(changes[i] == change);
            assert(one(middle.joined(channel, user, sid, now)).1[0] == change);
            assert(followed(middle, after, change));
        }
    }
    assert forall|c: Uuid| !is_told(changes, c) implies #[trigger] after.opened(c).known() == m.opened(
        c,
    ).known() by {
        if is_told(out, c) {
            let i = choose|i: int|
                0 <= i < out.len() && (#[trigger] out[i]).channel_id == c && !out[i].is_empty();
            assert(changes[i] == out[i]);
        }
        if c == channel {
            if !change.is_empty() {
                assert(changes[out.len() as int] == change);
            } else {
                let steps = one(middle.joined(channel, user, sid, now)).1;
                assert(!is_told(steps, c));
            }
        } else {
            assert(after.opened(c) == middle.opened(c));
        }
        assert(middle.opened(c).known() == m.opened(c).known());
    }
    assert forall|c: Uuid| m.counter(c) <= #[trigger] after.counter(c) by {
        assert(m.counter(c) <= middle.counter(c));
        assert(middle.counter(c) <= after.counter(c));
    }
}

/// Whatever is done to a valid registry leaves a valid one, and its changes
/// account for it: each leads from the version that its channel had to a later
/// one, and a client that knows the channel and receives it to the channel as
/// it is now, unless a room closes in which a track is left; what is not told
/// of is as it was.
pub proof fn law_every_operation_accounted(m: RegistryModel, op: Operation)
    requires
        m.valid(),
    ensures
        m.performed(op).0.valid(),
        accounted(m, m.performed(op).0, m.performed(op).1),
{
    match op {
        Operation::Join { channel, user, sid, now } => {
            let room = m.opened(channel);
            lemma_opened_valid(m, channel);
            lemma_joined_valid(room, channel, user, sid, now);
            law_joined_told(room, channel, user, sid, now);
            lemma_step(m, channel, room.joined(channel, user, sid, now));
        },
        Operation::JoinExclusive { channel, user, sid, now } => {
            lemma_exclusive(m, channel, user, sid, now);
        },
        Operation::Leave { channel, user, sid } => {
            if m.rooms.contains_key(channel) {
                let room = m.rooms[channel];
                lemma_left_valid(room, channel, user, sid);
                law_left_told(room, channel, user, sid);
                lemma_step(m, channel, room.left(channel, user, sid));
            } else {
                lemma_nothing(m, m, m.performed(op).1);
            }
        },
        Operation::Publish { channel, user, session, sid, source, now } => {
            let room = m.opened(channel);
            lemma_opened_valid(m, channel);
            lemma_published_valid(room, channel, user, session, sid, source, now);
            law_published_told(room, channel, user, session, sid, source, now);
            lemma_step(m, channel, room.published(channel, user, session, sid, source, now));
        },
        Operation::Unpublish { channel, sid } => {
            if m.rooms.contains_key(channel) {
                let room = m.rooms[channel];
                lemma_unpublished_valid(room, channel, sid);
                law_track_told(room, channel, sid, false);
                lemma_step(m, channel, room.unpublished(channel, sid));
            } else {
                lemma_nothing(m, m, m.performed(op).1);
            }
        },
        Operation::MuteTrack { channel, sid, muted } => {
            if m.rooms.contains_key(channel) {
                let room = m.rooms[channel];
                lemma_track_muted_valid(room, channel, sid, muted);
                law_track_told(room, channel, sid, muted);
                lemma_step(m, channel, room.track_muted(channel, sid, muted));
            } else {
                lemma_nothing(m, m, m.performed(op).1);
            }
        },
        Operation::Reconcile { channel, live, now } => {
            let room = m.opened(channel);
            lemma_opened_valid(m, channel);
            lemma_reconciled_proper(room, channel, live, now);
            lemma_step(m, channel, room.reconciled(channel, live, now));
        },
        Operation::Prune { live } => {
            let f = |c: Uuid| m.rooms[c].closed(c, ChangeReason::ReconcileRemoved);
            let dead = m.unreported(live);
            assert forall|c: Uuid| #[trigger] dead.contains(c) implies proper(m.rooms[c], c, f(c)) && !f(
                c,
            ).1.is_empty() by {
                lemma_closed_valid(m.rooms[c], c, ChangeReason::ReconcileRemoved);
                law_upkeep_told(m.rooms[c], c, 0, ChangeReason::ReconcileRemoved);
            }
            lemma_sweep(m, dead, f);
            assert(m.pruned(live).1 =~= sorted_ids(dead).map_values(|c: Uuid| reported(f(c))));
        },
        Operation::HintJoin { channel, user, sid, is_bot, now } => {
            let room = m.opened(channel);
            lemma_opened_valid(m, channel);
            lemma_hint_joined_valid(room, channel, user, sid, is_bot, now);
            law_presence_hint_told(room, channel, user, sid, is_bot, now);
            lemma_step(m, channel, room.hint_joined(channel, user, sid, is_bot, now));
        },
        Operation::HintLeave { channel, user } => {
            if m.rooms.contains_key(channel) {
                let room = m.rooms[channel];
                let at = Reading { utc: UtcTime { secs: 0, nanos: 0 }, mono: 0 };
                lemma_hint_left_valid(room, channel, user);
                law_presence_hint_told(room, channel, user, None, false, at);
                lemma_step(m, channel, room.hint_left(channel, user));
            } else {
                lemma_nothing(m, m, m.performed(op).1);
            }
        },
        Operation::HintTrack { channel, user, sid, source, published } => {
            if m.track_hinted(channel, user, sid, source, published) is Ok {
                let room = m.rooms[channel];
                law_track_hint_told(room, channel, user, sid, source);
                if published {
                    lemma_hint_published_valid(room, channel, user, sid, source);
                    lemma_step(m, channel, room.hint_published(channel, user, sid, source)->Ok_0);
                } else {
                    lemma_hint_unpublished_valid(room, channel, user, sid);
                    lemma_step(m, channel, room.hint_unpublished(channel, user, sid)->Ok_0);
                }
            } else {
                lemma_nothing(m, m, m.performed(op).1);
            }
        },
        Operation::SetAudio { channel, user, muted, deafened } => {
            if m.audio_set(channel, user, muted, deafened) is Ok {
                let room = m.rooms[channel];
                lemma_audio_set_valid(room, channel, user, muted, deafened);
                law_own_state_told(room, channel, user, muted, deafened, false);
                lemma_step(m, channel, room.audio_set(channel, user, muted, deafened)->Ok_0);
            } else {
                lemma_nothing(m, m, m.performed(op).1);
            }
        },
        Operation::SetMusic { channel, playing } => {
            if playing || m.rooms.contains_key(channel) {
                let room = m.opened(channel);
                lemma_opened_valid(m, channel);
                lemma_music_set_valid(room, channel, playing);
                law_own_state_told(room, channel, 0, None, None, playing);
                lemma_step(m, channel, room.music_set(channel, playing));
            } else {
                lemma_nothing(m, m, m.performed(op).1);
            }
        },
        Operation::Expire { now } => {
            let f = |c: Uuid| m.rooms[c].expired(c, now);
            let aging = m.aging(now);
            assert forall|c: Uuid| #[trigger] aging.contains(c) implies proper(m.rooms[c], c, f(c)) && !f(
                c,
            ).1.is_empty() by {
                lemma_expired_valid(m.rooms[c], c, now);
                law_upkeep_told(m.rooms[c], c, now, ChangeReason::ProvisionalExpired);
            }
            lemma_sweep(m, aging, f);
            assert(m.expired(now).1 =~= sorted_ids(aging).map_values(|c: Uuid| reported(f(c))));
        },
        Operation::CloseChannel { channel } => {
            if m.rooms.contains_key(channel) {
                let room = m.rooms[channel];
                lemma_closed_valid(room, channel, ChangeReason::ChannelDeleted);
                law_upkeep_told(room, channel, 0, ChangeReason::ChannelDeleted);
                lemma_step(m, channel, room.closed(channel, ChangeReason::ChannelDeleted));
            } else {
                lemma_nothing(m, m, m.performed(op).1);
            }
        },
        Operation::SeeEvent { key } => {
            law_seen_event_known(m, key);
            lemma_nothing(m, m.performed(op).0, Seq::empty());
        },
    }
}

/// Many operations leave a valid registry valid, and no version goes back.
proof fn lemma_performed_all(m: RegistryModel, ops: Seq<Operation>, c: Uuid)
    requires
        m.valid(),
    ensures
        m.performed_all(ops).valid(),
        m.counter(c) <= m.performed_all(ops).counter(c),
    decreases ops.len(),
{
    if ops.len() > 0 {
        lemma_performed_all(m, ops.drop_last(), c);
        law_every_operation_accounted(m.performed_all(ops.drop_last()), ops.last());
    }
}

/// In every room of every registry that operations make of an empty one, each
/// row is found by its own key, a row is provisional exactly while it ages,
/// and no share is without its owner: the owner of a track that is not a music
/// row is in the room.
pub proof fn law_rooms_stay_sound(ops: Seq<Operation>, c: Uuid, u: Uuid, s: Seq<char>)
    ensures
        ({
            let m = RegistryModel::empty().performed_all(ops);
            let room = m.rooms[c];
            &&& m.valid()
            &&& m.rooms.contains_key(c) && room.participants.contains_key(u) ==> {
                &&& room.participants[u].user_id == u
                &&& room.participants[u].sid is None <==> room.participants[u].provisional_since is Some
            }
            &&& m.rooms.contains_key(c) && room.tracks.contains_key(s) ==> {
                &&& room.tracks[s].sid == s
                &&& room.tracks[s].source != TrackSource::Music ==> room.participants.contains_key(
                    room.tracks[s].owner,
                )
                &&& room.participants.contains_key(room.tracks[s].owner) || room.tracks[s].owner
                    == MUSIC_BOT_ID
            }
        }),
{
    assert(RegistryModel::empty().rooms.dom() =~= Set::empty());
    lemma_performed_all(RegistryModel::empty(), ops, c);
}

/// The version of a channel only grows and never restarts: of two changes of
/// one channel, whatever happened between them, the later one has the later
/// version, even where its room closed and was opened again.
pub proof fn law_later_change_later_version(
    m: RegistryModel,
    first: Operation,
    i: int,
    between: Seq<Operation>,
    second: Operation,
    j: int,
)
    requires
        m.valid(),
        0 <= i < m.performed(first).1.len(),
        0 <= j < m.performed(first).0.performed_all(between).performed(second).1.len(),
    ensures
        ({
            let d = m.performed(first).1[i];
            let later = m.performed(first).0.performed_all(between).performed(second).1[j];
            !d.is_empty() && !later.is_empty() && d.channel_id == later.channel_id ==> d.version_after
                <= later.version_before && later.version_before < later.version_after
        }),
{
    let after = m.performed(first).0;
    let middle = after.performed_all(between);
    let d = m.performed(first).1[i];
    law_every_operation_accounted(m, first);
    lemma_performed_all(after, between, d.channel_id);
    law_every_operation_accounted(middle, second);
}

/// The music row comes and goes without a trace: to start and to stop gives
/// back every row, two versions later, and what is asked for twice is done
/// once.
pub proof fn law_music_row_round_trip(m: RegistryModel, channel: Uuid)
    requires
        m.valid(),
        m.rooms.contains_key(channel),
    ensures
        ({
            let sid = music_sid(channel);
            let on = m.music_set(channel, true);
            let off = on.0.music_set(channel, false);
            let back = m.music_set(channel, false);
            &&& on.0.music_set(channel, true).1.is_empty() && on.0.music_set(channel, true).0 == on.0
            &&& back.0.music_set(channel, false).1.is_empty() && back.0.music_set(channel, false).0 == back.0
            &&& !m.rooms[channel].tracks.contains_key(sid) ==> {
                &&& on.1.tracks_added == seq![music_row(channel)]
                &&& off.1.tracks_removed == seq![sid]
                &&& off.0.rooms[channel].participants == m.rooms[channel].participants
                &&& off.0.rooms[channel].tracks == m.rooms[channel].tracks
                &&& off.0.counter(channel) == m.counter(channel) + 2
            }
        }),
{
    let sid = music_sid(channel);
    let on = m.music_set(channel, true);
    let off = on.0.music_set(channel, false);
    let back = m.music_set(channel, false);
    assert(on.0.music_set(channel, true).0.rooms =~= on.0.rooms);
    assert(back.0.music_set(channel, false).0.rooms =~= back.0.rooms);
    if !m.rooms[channel].tracks.contains_key(sid) {
        assert(off.0.rooms[channel].tracks =~= m.rooms[channel].tracks);
    }
}

} // verus!
