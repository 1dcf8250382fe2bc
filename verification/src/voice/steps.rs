//! What each operation on the registry is for: which room it works on, what it
//! leaves of the others, and when a room closes.

use vstd::prelude::*;

use crate::clock::Reading;
use crate::ident::{uuid_text, Uuid};
use crate::listing::sorted_ids;
use crate::voice::model::{reported, ChangeModel, LiveParticipant, Outcome, RegistryModel, RoomModel, Step};
use crate::voice::rows::{law_ids_listed, nobody_reported, no_track_reported, overdue};
use crate::voice::types::{ChangeReason, HintError, TrackSource};

verus! {

/// Does the registry differ only in the room of `channel`, which is now `room`?
pub open spec fn holds_instead(m: RegistryModel, after: RegistryModel, channel: Uuid, room: RoomModel) -> bool {
    &&& after.rooms == m.rooms.insert(channel, room)
    &&& after.retired == m.retired
    &&& after.seen == m.seen
}

/// Does `outcome` report something and leave nobody?
pub open spec fn empties(outcome: Outcome) -> bool {
    &&& outcome.1.version_after != outcome.1.version_before
    &&& forall|u: Uuid| !#[trigger] outcome.0.participants.contains_key(u)
}

/// Is `d` what `outcome` reports, and does it say whether the room closes?
pub open spec fn reports(d: ChangeModel, outcome: Outcome) -> bool {
    &&& d.channel_id == outcome.1.channel_id
    &&& d.version_before == outcome.1.version_before
    &&& d.version_after == outcome.1.version_after
    &&& d.participants_added == outcome.1.participants_added
    &&& d.participants_updated == outcome.1.participants_updated
    &&& d.participants_removed == outcome.1.participants_removed
    &&& d.tracks_added == outcome.1.tracks_added
    &&& d.tracks_removed == outcome.1.tracks_removed
    &&& d.reason == outcome.1.reason
    &&& d.room_closed <==> empties(outcome)
}

/// Is the room of `channel` what `outcome` leaves? A room that its last
/// participant left is gone, and its version is remembered.
pub open spec fn comes_to(m: RegistryModel, after: RegistryModel, channel: Uuid, outcome: Outcome) -> bool {
    if empties(outcome) {
        &&& after.rooms == m.rooms.remove(channel)
        &&& after.retired == m.retired.insert(channel, outcome.0.version)
        &&& after.seen == m.seen
    } else {
        holds_instead(m, after, channel, outcome.0)
    }
}

/// Is `d` the report of nothing, about `channel`?
pub open spec fn says_nothing(d: ChangeModel, channel: Uuid) -> bool {
    &&& d.channel_id == channel
    &&& d.version_before == d.version_after
    &&& nobody_reported(d)
    &&& no_track_reported(d)
    &&& !d.room_closed
}

/// The room that an operation works on is the one that the channel has, or a
/// new one with nobody and nothing in it, that counts on from the version that
/// the last room of the channel had, or from zero.
pub proof fn law_room_opened(m: RegistryModel, channel: Uuid, u: Uuid, s: Seq<char>)
    ensures
        ({
            let room = m.opened(channel);
            &&& m.rooms.contains_key(channel) ==> room == m.rooms[channel]
            &&& !m.rooms.contains_key(channel) ==> {
                &&& !room.participants.contains_key(u)
                &&& !room.tracks.contains_key(s)
                &&& room.reconciled_at is None
                &&& m.retired.contains_key(channel) ==> room.version == m.retired[channel]
                &&& !m.retired.contains_key(channel) ==> room.version == 0
            }
            &&& m.counter(channel) == room.version
        }),
{
}

/// Joins, publications and hints of joining work on the room of their channel
/// alone, and open it where there is none.
pub proof fn law_opening_steps(
    m: RegistryModel,
    channel: Uuid,
    user: Uuid,
    sid: Seq<char>,
    session: Option<Seq<char>>,
    source: TrackSource,
    is_bot: bool,
    now: Reading,
)
    ensures
        ({
            let room = m.opened(channel);
            let joined = m.joined(channel, user, sid, now);
            let published = m.published(channel, user, session, sid, source, now);
            let hinted = m.hint_joined(channel, user, session, is_bot, now);
            &&& holds_instead(m, joined.0, channel, room.joined(channel, user, sid, now).0)
            &&& joined.1 == room.joined(channel, user, sid, now).1
            &&& holds_instead(
                m,
                published.0,
                channel,
                room.published(channel, user, session, sid, source, now).0,
            )
            &&& published.1 == room.published(channel, user, session, sid, source, now).1
            &&& holds_instead(
                m,
                hinted.0,
                channel,
                room.hint_joined(channel, user, session, is_bot, now).0,
            )
            &&& hinted.1 == room.hint_joined(channel, user, session, is_bot, now).1
        }),
{
}

/// What is said of the tracks of a channel without a room does nothing;
/// otherwise it works on the room of that channel alone.
pub proof fn law_track_steps(m: RegistryModel, channel: Uuid, sid: Seq<char>, muted: bool)
    ensures
        ({
            let down = m.unpublished(channel, sid);
            let mute = m.track_muted(channel, sid, muted);
            let room = m.rooms[channel];
            &&& !m.rooms.contains_key(channel) ==> {
                &&& down.0 == m && says_nothing(down.1, channel)
                &&& mute.0 == m && says_nothing(mute.1, channel)
            }
            &&& m.rooms.contains_key(channel) ==> {
                &&& holds_instead(m, down.0, channel, room.unpublished(channel, sid).0)
                &&& down.1 == room.unpublished(channel, sid).1
                &&& holds_instead(m, mute.0, channel, room.track_muted(channel, sid, muted).0)
                &&& mute.1 == room.track_muted(channel, sid, muted).1
            }
        }),
{
}

/// A hint about a track, and a change of mute or deafen, are refused in a
/// channel without a room; otherwise they do what they do to the room of that
/// channel alone, or are refused as there.
pub proof fn law_claim_steps(
    m: RegistryModel,
    channel: Uuid,
    user: Uuid,
    sid: Seq<char>,
    source: TrackSource,
    muted: Option<bool>,
    deafened: Option<bool>,
)
    ensures
        ({
            let up = m.track_hinted(channel, user, sid, source, true);
            let down = m.track_hinted(channel, user, sid, source, false);
            let audio = m.audio_set(channel, user, muted, deafened);
            let room = m.rooms[channel];
            &&& !m.rooms.contains_key(channel) ==> {
                &&& up == Err::<Step, HintError>(HintError::NotInCall)
                &&& down == Err::<Step, HintError>(HintError::TrackNotFound)
                &&& audio == Err::<Step, HintError>(HintError::NotInCall)
            }
            &&& m.rooms.contains_key(channel) ==> {
                &&& match room.hint_published(channel, user, sid, source) {
                    Ok(o) => up is Ok && holds_instead(m, up->Ok_0.0, channel, o.0) && up->Ok_0.1 == o.1,
                    Err(e) => up == Err::<Step, HintError>(e),
                }
                &&& match room.hint_unpublished(channel, user, sid) {
                    Ok(o) => down is Ok && holds_instead(m, down->Ok_0.0, channel, o.0) && down->Ok_0.1
                        == o.1,
                    Err(e) => down == Err::<Step, HintError>(e),
                }
                &&& match room.audio_set(channel, user, muted, deafened) {
                    Ok(o) => audio is Ok && holds_instead(m, audio->Ok_0.0, channel, o.0)
                        && audio->Ok_0.1 == o.1,
                    Err(e) => audio == Err::<Step, HintError>(e),
                }
            }
        }),
{
}

/// The music row of a channel: to start opens a room where there is none, to
/// stop does nothing there.
pub proof fn law_music_step(m: RegistryModel, channel: Uuid, playing: bool)
    ensures
        ({
            let step = m.music_set(channel, playing);
            let o = m.opened(channel).music_set(channel, playing);
            if playing || m.rooms.contains_key(channel) {
                holds_instead(m, step.0, channel, o.0) && step.1 == o.1
            } else {
                step.0 == m && says_nothing(step.1, channel)
            }
        }),
{
}

/// An outcome that leaves nobody is one that closes the room.
proof fn lemma_empties(outcome: Outcome)
    ensures
        crate::voice::model::closes(outcome) <==> empties(outcome),
        reports(reported(outcome), outcome),
{
    if empties(outcome) {
        assert forall|u: Uuid| !outcome.0.participants.dom().contains(u) by {
            assert(!outcome.0.participants.contains_key(u));
        }
        assert(outcome.0.participants.dom() =~= Set::empty());
    }
    if crate::voice::model::closes(outcome) {
        assert forall|u: Uuid| !#[trigger] outcome.0.participants.contains_key(u) by {
            assert(!outcome.0.participants.dom().contains(u));
        }
    }
}

/// Leaves, hints of leaving, the deletion of a channel and reconciliations work
/// on the room of their channel alone, and close it where nobody is left. All
/// but a reconciliation do nothing where there is no room.
pub proof fn law_closing_steps(
    m: RegistryModel,
    channel: Uuid,
    user: Uuid,
    sid: Seq<char>,
    live: Seq<LiveParticipant>,
    now: Reading,
)
    ensures
        ({
            let left = m.left(channel, user, sid);
            let hinted = m.hint_left(channel, user);
            let deleted = m.channel_closed(channel);
            let held = m.reconciled(channel, live, now);
            let room = m.rooms[channel];
            let mirrored = m.opened(channel).reconciled(channel, live, now);
            let gone = room.closed(channel, ChangeReason::ChannelDeleted);
            &&& !m.rooms.contains_key(channel) ==> {
                &&& left.0 == m && says_nothing(left.1, channel)
                &&& hinted.0 == m && says_nothing(hinted.1, channel)
                &&& deleted.0 == m && says_nothing(deleted.1, channel)
            }
            &&& m.rooms.contains_key(channel) ==> {
                &&& comes_to(m, left.0, channel, room.left(channel, user, sid))
                &&& reports(left.1, room.left(channel, user, sid))
                &&& comes_to(m, hinted.0, channel, room.hint_left(channel, user))
                &&& reports(hinted.1, room.hint_left(channel, user))
                &&& comes_to(m, deleted.0, channel, gone)
                &&& reports(deleted.1, gone)
            }
            &&& comes_to(m, held.0, channel, mirrored)
            &&& reports(held.1, mirrored)
        }),
{
    let room = m.rooms[channel];
    lemma_empties(room.left(channel, user, sid));
    lemma_empties(room.hint_left(channel, user));
    lemma_empties(room.closed(channel, ChangeReason::ChannelDeleted));
    lemma_empties(m.opened(channel).reconciled(channel, live, now));
}

/// The deletion of a channel leaves it without a room, whatever was in it, and
/// its version is not lost.
pub proof fn law_deleted_channel_has_no_room(m: RegistryModel, channel: Uuid)
    ensures
        ({
            let step = m.channel_closed(channel);
            &&& step.0.rooms == m.rooms.remove(channel)
            &&& m.rooms.contains_key(channel) ==> step.1.room_closed && step.0.retired[channel]
                == m.rooms[channel].version + 1
        }),
{
    if m.rooms.contains_key(channel) {
        let gone = m.rooms[channel].closed(channel, ChangeReason::ChannelDeleted);
        lemma_empties(gone);
        assert(empties(gone));
    } else {
        assert(m.rooms.remove(channel) =~= m.rooms);
    }
}

/// What a sweep over many rooms does to the room of `c`: what `outcome` says
/// where the room is touched, and nothing where it is not. The reports have one
/// of it, or none.
pub open spec fn swept(
    m: RegistryModel,
    after: RegistryModel,
    ds: Seq<ChangeModel>,
    c: Uuid,
    touched: bool,
    outcome: Outcome,
) -> bool {
    &&& !touched ==> {
        &&& after.rooms.contains_key(c) == m.rooms.contains_key(c)
        &&& after.rooms.contains_key(c) ==> after.rooms[c] == m.rooms[c]
        &&& after.retired.contains_key(c) == m.retired.contains_key(c)
        &&& after.retired.contains_key(c) ==> after.retired[c] == m.retired[c]
        &&& forall|i: int| 0 <= i < ds.len() ==> (#[trigger] ds[i]).channel_id != c
    }
    &&& touched ==> {
        &&& after.rooms.contains_key(c) <==> !empties(outcome)
        &&& !empties(outcome) ==> after.rooms[c] == outcome.0
        &&& empties(outcome) ==> after.retired.contains_key(c) && after.retired[c] == outcome.0.version
        &&& exists|i: int| 0 <= i < ds.len() && reports(#[trigger] ds[i], outcome)
    }
    &&& after.seen == m.seen
}

/// Do the reports come in the order of their channels, one of each?
pub open spec fn channels_rise(ds: Seq<ChangeModel>) -> bool {
    forall|i: int, j: int|
        0 <= i < j < ds.len() ==> (#[trigger] ds[i]).channel_id < (#[trigger] ds[j]).channel_id
}

proof fn lemma_swept(m: RegistryModel, channels: Set<Uuid>, f: spec_fn(Uuid) -> Outcome, c: Uuid)
    requires
        channels.finite(),
        forall|d: Uuid| (#[trigger] f(d)).1.channel_id == d,
    ensures
        ({
            let after = m.settled_all(channels, f);
            let ds = sorted_ids(channels).map_values(|d: Uuid| reported(f(d)));
            swept(m, after, ds, c, channels.contains(c), f(c)) && channels_rise(ds)
        }),
{
    let after = m.settled_all(channels, f);
    let ids = sorted_ids(channels);
    let ds = ids.map_values(|d: Uuid| reported(f(d)));
    lemma_empties(f(c));
    law_ids_listed(channels, c);
    assert forall|i: int| 0 <= i < ds.len() implies (#[trigger] ds[i]).channel_id == ids[i] by {
        assert(f(ids[i]).1.channel_id == ids[i]);
    }
    if channels.contains(c) {
        let i = choose|i: int| 0 <= i < ids.len() && ids[i] == c;
        assert(reports(ds[i], f(c)));
    } else {
        assert forall|i: int| 0 <= i < ds.len() implies (#[trigger] ds[i]).channel_id != c by {
            assert(ids.contains(ids[i]));
        }
    }
}

/// Expiry touches the rooms with a row that has been provisional for ten
/// seconds or longer, and no others.
pub proof fn law_expiry_sweep(m: RegistryModel, now: i128, c: Uuid)
    requires
        m.valid(),
    ensures
        ({
            let (after, ds) = m.expired(now);
            let aged = m.rooms.contains_key(c) && exists|u: Uuid| overdue(m.rooms[c], u, now);
            swept(m, after, ds, c, aged, m.rooms[c].expired(c, now)) && channels_rise(ds)
        }),
{
    let f = |d: Uuid| m.rooms[d].expired(d, now);
    let set = m.aging(now);
    vstd::set_lib::lemma_set_subset_finite(m.rooms.dom(), set);
    lemma_swept(m, set, f, c);
    let old = m.rooms[c].expired_at(now);
    assert forall|u: Uuid| #[trigger] old.contains(u) <==> overdue(m.rooms[c], u, now) by {}
    if m.rooms.contains_key(c) && exists|u: Uuid| overdue(m.rooms[c], u, now) {
        let u = choose|u: Uuid| overdue(m.rooms[c], u, now);
        assert(old.contains(u));
        assert(set.contains(c));
    }
    if set.contains(c) {
        assert(!(old =~= Set::empty()));
        let u = choose|u: Uuid| old.contains(u);
        assert(overdue(m.rooms[c], u, now));
    }
    assert(m.expired(now).1 =~= sorted_ids(set).map_values(|d: Uuid| reported(f(d))));
}

/// Pruning closes the rooms that LiveKit does not report, and touches no
/// others.
pub proof fn law_prune_sweep(m: RegistryModel, live: Set<Uuid>, c: Uuid)
    requires
        m.valid(),
    ensures
        ({
            let (after, ds) = m.pruned(live);
            let dead = m.rooms.contains_key(c) && !live.contains(c);
            let gone = m.rooms[c].closed(c, ChangeReason::ReconcileRemoved);
            &&& swept(m, after, ds, c, dead, gone)
            &&& channels_rise(ds)
            &&& after.rooms.contains_key(c) <==> m.rooms.contains_key(c) && live.contains(c)
        }),
{
    let f = |d: Uuid| m.rooms[d].closed(d, ChangeReason::ReconcileRemoved);
    let set = m.unreported(live);
    vstd::set_lib::lemma_set_subset_finite(m.rooms.dom(), set);
    lemma_swept(m, set, f, c);
    assert(empties(f(c)));
    assert(m.pruned(live).1 =~= sorted_ids(set).map_values(|d: Uuid| reported(f(d))));
}

/// An exclusive join takes the user out of every other room that it is in, and
/// touches no other; in its own channel it is a join. The reports of the rooms
/// that it left come first, in order; that of the join comes last, where it has
/// anything to report.
pub proof fn law_exclusive_join_sweep(
    m: RegistryModel,
    channel: Uuid,
    user: Uuid,
    sid: Seq<char>,
    now: Reading,
    c: Uuid,
)
    requires
        m.valid(),
        c != channel,
    ensures
        ({
            let (after, ds) = m.joined_exclusive(channel, user, sid, now);
            let own = m.opened(channel).joined(channel, user, sid, now);
            let quiet = own.1.version_before == own.1.version_after;
            let others = if quiet {
                ds
            } else {
                ds.drop_last()
            };
            let was_in = m.rooms.contains_key(c) && m.rooms[c].participants.contains_key(user);
            &&& swept(m, after, others, c, was_in, m.rooms[c].evicted(c, user))
            &&& channels_rise(others)
            &&& after.rooms.contains_key(channel) && after.rooms[channel] == own.0
            &&& !quiet ==> ds.len() > 0 && ds.last() == own.1
        }),
{
    let set = m.elsewhere(channel, user);
    let f = |d: Uuid| m.rooms[d].evicted(d, user);
    vstd::set_lib::lemma_set_subset_finite(m.rooms.dom(), set);
    lemma_swept(m, set, f, c);
    let middle = m.evicted(channel, user);
    assert(!set.contains(channel));
    assert(middle.opened(channel) == m.opened(channel));
    let (after, ds) = m.joined_exclusive(channel, user, sid, now);
    let first = sorted_ids(set).map_values(|d: Uuid| reported(f(d)));
    assert(m.evictions(channel, user) =~= first);
    let own = m.opened(channel).joined(channel, user, sid, now);
    if own.1.version_before != own.1.version_after {
        assert(ds.drop_last() =~= first);
    }
}

/// The channel of a user: the lowest of the channels that the user is in, and
/// none where the user is in none.
pub proof fn law_channel_found(m: RegistryModel, user: Uuid, c: Uuid)
    requires
        m.valid(),
    ensures
        m.channel_of(user) is None ==> !(m.rooms.contains_key(c)
            && m.rooms[c].participants.contains_key(user)),
        m.channel_of(user) matches Some(d) ==> {
            &&& m.rooms.contains_key(d) && m.rooms[d].participants.contains_key(user)
            &&& m.rooms.contains_key(c) && m.rooms[c].participants.contains_key(user) ==> d <= c
        },
{
    crate::voice::laws::law_channel_of_finds(m, user, c);
}

/// A new registry has no rooms, remembers no version, and has seen no event.
pub proof fn law_new_registry(c: Uuid, key: Seq<char>)
    ensures
        !RegistryModel::empty().rooms.contains_key(c),
        !RegistryModel::empty().retired.contains_key(c),
        !RegistryModel::empty().seen.contains(key),
        RegistryModel::empty().counter(c) == 0,
{
}

/// Seeing an event makes it known and touches no room. One that was known
/// changes nothing; a new one is the last of those remembered, and of the others
/// only the oldest may be forgotten, and only where 512 were remembered.
pub proof fn law_event_seen(m: RegistryModel, key: Seq<char>)
    requires
        m.valid(),
    ensures
        ({
            let after = m.having_seen(key);
            &&& after.rooms == m.rooms
            &&& after.retired == m.retired
            &&& m.seen.contains(key) ==> after.seen == m.seen
            &&& !m.seen.contains(key) && m.seen.len() < 512 ==> after.seen == m.seen.push(key)
            &&& !m.seen.contains(key) && m.seen.len() == 512 ==> after.seen == m.seen.drop_first().push(key)
            &&& m.seen.len() <= 512
        }),
{
    if m.seen.len() == 512 {
        assert(m.seen.push(key).skip(1) =~= m.seen.drop_first().push(key));
    }
}

/// The music rows of two channels have different SIDs, and none is one that
/// LiveKit gives to a track.
pub proof fn law_music_sid(a: Uuid, b: Uuid)
    ensures
        "music:"@ + uuid_text(a) == "music:"@ + uuid_text(b) ==> a == b,
        crate::voice::model::music_sid(a) == "music:"@ + uuid_text(a),
{
    crate::voice::laws::law_music_row_apart(a, b);
}

/// Has every channel room to count `n` more versions?
pub open spec fn has_room(m: RegistryModel, n: nat) -> bool {
    forall|c: Uuid| #[trigger] m.counter(c) + n <= u64::MAX
}

/// There is room to count on a channel while its version is not the last that
/// there is; to move someone there has to be in every channel that changes; a
/// publication takes one, and two where its owner is not there.
pub proof fn law_room_to_count(m: RegistryModel, channel: Uuid, user: Uuid)
    ensures
        m.can_count(channel) <==> m.counter(channel) < u64::MAX,
        m.can_move(channel, user) <==> m.counter(channel) < u64::MAX && forall|c: Uuid|
            c != channel && m.rooms.contains_key(c) && m.rooms[c].participants.contains_key(user)
                ==> #[trigger] m.counter(c) < u64::MAX,
        m.can_publish(channel, user) <==> m.counter(channel) + 1 <= u64::MAX && (
        !m.opened(channel).participants.contains_key(user) ==> m.counter(channel) + 2 <= u64::MAX),
{
    let set = m.elsewhere(channel, user);
    if m.can_move(channel, user) {
        assert forall|c: Uuid|
            c != channel && m.rooms.contains_key(c) && m.rooms[c].participants.contains_key(user) implies
            #[trigger] m.counter(c) < u64::MAX by {
            assert(set.contains(c));
        }
    }
    if m.counter(channel) < u64::MAX && forall|c: Uuid|
        c != channel && m.rooms.contains_key(c) && m.rooms[c].participants.contains_key(user)
            ==> #[trigger] m.counter(c) < u64::MAX {
        assert forall|c: Uuid| #[trigger] set.contains(c) implies m.can_count(c) by {
            assert(m.counter(c) < u64::MAX);
        }
    }
}

/// A set of channels has room to count where each of them has; an expiry counts
/// on the rooms with an overdue row, a prune on the rooms that are not
/// reported, and neither on any other.
pub proof fn law_room_to_sweep(m: RegistryModel, channels: Set<Uuid>, live: Set<Uuid>, now: i128, c: Uuid)
    ensures
        m.can_count_in(channels) <==> forall|d: Uuid|
            #[trigger] channels.contains(d) ==> m.counter(d) < u64::MAX,
        m.unreported(live).contains(c) <==> m.rooms.contains_key(c) && !live.contains(c),
        m.aging(now).contains(c) <==> m.rooms.contains_key(c) && exists|u: Uuid| overdue(m.rooms[c], u, now),
{
    if forall|d: Uuid| #[trigger] channels.contains(d) ==> m.counter(d) < u64::MAX {
        assert(m.can_count_in(channels));
    }
    if m.can_count_in(channels) {
        assert forall|d: Uuid| #[trigger] channels.contains(d) implies m.counter(d) < u64::MAX by {
            assert(m.can_count(d));
        }
    }
    let old = m.rooms[c].expired_at(now);
    assert forall|u: Uuid| #[trigger] old.contains(u) <==> overdue(m.rooms[c], u, now) by {}
    if m.rooms.contains_key(c) && exists|u: Uuid| overdue(m.rooms[c], u, now) {
        let u = choose|u: Uuid| overdue(m.rooms[c], u, now);
        assert(old.contains(u));
    }
    if m.aging(now).contains(c) {
        let u = choose|u: Uuid| old.contains(u);
        assert(overdue(m.rooms[c], u, now));
    }
}

} // verus!
