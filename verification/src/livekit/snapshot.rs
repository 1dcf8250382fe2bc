//! The lists of rooms and participants that LiveKit gives, applied to the
//! registry.

use std::collections::HashSet;

use vstd::prelude::*;

use crate::clock::Reading;
use crate::ident::{parse_uuid, uuid_of_text, Uuid};
use crate::voice::laws::law_reconcile_mirrors;
use crate::voice::mirror::law_reconcile_counts;
use crate::voice::model::{
    closes, live_users, ChangeModel, LiveParticipant, LiveTrack, RegistryModel,
};
use crate::voice::reconcile::live_list;
use crate::voice::registry::{change_list, lemma_change_list_push, VoiceRegistry};
use crate::voice::steps::{empties, has_room, law_closing_steps, law_prune_sweep, reports};
use crate::voice::types::{
    ChangeReason, ChannelId, ReconciledParticipant, RoomChange, TrackSid, TrackSource,
};
use crate::voice::validity::{lemma_opened_valid, lemma_reconciled_valid, lemma_settled_valid};

verus! {

broadcast use vstd::std_specs::hash::group_hash_axioms;

/// A participant as LiveKit lists it: its tracks by SID, source and whether
/// they are muted.
#[derive(Debug)]
pub struct RoomParticipant {
    pub identity: String,
    pub sid: String,
    pub tracks: Vec<(String, String, bool)>,
}

/// The tracks of a list that are shown: those of a source that is projected.
pub open spec fn projected(tracks: Seq<(String, String, bool)>) -> Seq<LiveTrack>
    decreases tracks.len(),
{
    if tracks.len() == 0 {
        Seq::empty()
    } else {
        let t = tracks.last();
        match TrackSource::named(t.1@) {
            Some(source) => projected(tracks.drop_last()).push(
                LiveTrack { sid: t.0@, source, muted: t.2 },
            ),
            None => projected(tracks.drop_last()),
        }
    }
}

/// A participant whose identity was read as `user_id`. One whose identity
/// cannot be read is none of ours.
pub open spec fn recognized(user_id: Option<Uuid>, p: RoomParticipant) -> Option<LiveParticipant> {
    match user_id {
        Some(id) => Some(
            LiveParticipant { user_id: id, sid: p.sid@, tracks: projected(p.tracks@) },
        ),
        None => None,
    }
}

/// The participants of a list whose identity can be read.
pub open spec fn all_recognized(s: Seq<RoomParticipant>) -> Seq<LiveParticipant>
    decreases s.len(),
{
    if s.len() == 0 {
        Seq::empty()
    } else {
        match recognized(uuid_of_text(s.last().identity@), s.last()) {
            Some(p) => all_recognized(s.drop_last()).push(p),
            None => all_recognized(s.drop_last()),
        }
    }
}

/// The tracks of a list that are shown.
fn project_tracks(tracks: &Vec<(String, String, bool)>) -> (r: Vec<(TrackSid, TrackSource, bool)>)
    ensures
        r@.len() == projected(tracks@).len(),
        forall|i: int|
            0 <= i < r@.len() ==> projected(tracks@)[i] == (LiveTrack {
                sid: (#[trigger] r@[i]).0@,
                source: r@[i].1,
                muted: r@[i].2,
            }),
{
    let mut out: Vec<(TrackSid, TrackSource, bool)> = Vec::new();
    for i in 0..tracks.len()
        invariant
            out@.len() == projected(tracks@.take(i as int)).len(),
            forall|j: int|
                0 <= j < out@.len() ==> projected(tracks@.take(i as int))[j] == (LiveTrack {
                    sid: (#[trigger] out@[j]).0@,
                    source: out@[j].1,
                    muted: out@[j].2,
                }),
    {
        let t: &(String, String, bool) = &tracks[i];
        proof {
            assert(tracks@.take(i + 1).drop_last() =~= tracks@.take(i as int));
            assert(tracks@.take(i + 1).last() == *t);
        }
        if let Some(source) = TrackSource::parse(t.1.as_str()) {
            out.push((t.0.clone(), source, t.2));
        }
    }
    assert(tracks@.take(tracks@.len() as int) =~= tracks@);
    out
}

/// A listed participant whose identity was read as `user_id`.
pub fn recognize(user_id: Option<Uuid>, p: &RoomParticipant) -> (r: Option<ReconciledParticipant>)
    ensures
        match recognized(user_id, *p) {
            Some(live) => r matches Some(x) && x@ == live,
            None => r is None,
        },
{
    match user_id {
        Some(id) => {
            let r = ReconciledParticipant {
                user_id: id,
                sid: p.sid.clone(),
                tracks: project_tracks(&p.tracks),
            };
            assert(r@.tracks =~= projected(p.tracks@));
            Some(r)
        },
        None => None,
    }
}

/// The participants of a list whose identity can be read, with the tracks of
/// a source that is projected.
pub fn map_to_reconciled(participants: &Vec<RoomParticipant>) -> (r: Vec<ReconciledParticipant>)
    ensures
        live_list(r@) == all_recognized(participants@),
{
    let mut out: Vec<ReconciledParticipant> = Vec::new();
    proof {
        assert(live_list(out@) =~= all_recognized(participants@.take(0)));
    }
    for i in 0..participants.len()
        invariant
            live_list(out@) == all_recognized(participants@.take(i as int)),
    {
        let p: &RoomParticipant = &participants[i];
        let ghost before = out@;
        proof {
            assert(participants@.take(i + 1).drop_last() =~= participants@.take(i as int));
            assert(participants@.take(i + 1).last() == *p);
        }
        if let Some(known) = recognize(parse_uuid(p.identity.as_str()), p) {
            let ghost live = known@;
            out.push(known);
            assert(live_list(out@) =~= live_list(before).push(live));
        }
    }
    assert(participants@.take(participants@.len() as int) =~= participants@);
    out
}

/// A room as LiveKit lists it, once its name was read.
#[derive(Debug)]
pub struct LiveRoom {
    pub channel_id: ChannelId,
    pub participants: Vec<ReconciledParticipant>,
}

/// The registry after reconciling rooms one after the other, and the changes
/// of those that were out of step.
pub open spec fn reconciled_each(m: RegistryModel, rooms: Seq<LiveRoom>, now: Reading) -> (
    RegistryModel,
    Seq<ChangeModel>,
)
    decreases rooms.len(),
{
    if rooms.len() == 0 {
        (m, Seq::empty())
    } else {
        let (middle, changes) = reconciled_each(m, rooms.drop_last(), now);
        let room = rooms.last();
        let step = middle.reconciled(room.channel_id, live_list(room.participants@), now);
        if step.1.is_empty() {
            (step.0, changes)
        } else {
            (step.0, changes.push(step.1))
        }
    }
}

/// The channels of a list of rooms.
pub open spec fn live_channels(rooms: Seq<LiveRoom>) -> Set<Uuid> {
    Set::new(|c: Uuid| exists|i: int| 0 <= i < rooms.len() && (#[trigger] rooms[i]).channel_id == c)
}

/// The registry once it is held to all that LiveKit lists: the rooms that it
/// lists are reconciled, the others are closed. And what changed.
pub open spec fn reconciled_all(m: RegistryModel, rooms: Seq<LiveRoom>, now: Reading) -> (
    RegistryModel,
    Seq<ChangeModel>,
) {
    let (middle, changes) = reconciled_each(m, rooms, now);
    let (after, closed) = middle.pruned(live_channels(rooms));
    (after, changes + closed)
}

/// A reconciliation counts one at most, and in its channel only.
proof fn lemma_reconciled_counts_one(
    m: RegistryModel,
    channel: Uuid,
    live: Seq<LiveParticipant>,
    now: Reading,
    c: Uuid,
)
    ensures
        ({
            let after = m.reconciled(channel, live, now).0;
            &&& after.counter(c) <= m.counter(c) + 1
            &&& c != channel ==> after.counter(c) == m.counter(c) && (after.rooms.contains_key(c)
                <==> m.rooms.contains_key(c))
        }),
{
    let outcome = m.opened(channel).reconciled(channel, live, now);
    let after = m.reconciled(channel, live, now).0;
    if c == channel {
        assert(after.counter(c) == outcome.0.version);
    }
}

/// How often a list of rooms names a channel.
pub open spec fn times_listed(rooms: Seq<LiveRoom>, c: Uuid) -> nat
    decreases rooms.len(),
{
    if rooms.len() == 0 {
        0
    } else if rooms.last().channel_id == c {
        times_listed(rooms.drop_last(), c) + 1
    } else {
        times_listed(rooms.drop_last(), c)
    }
}

/// How many versions a channel may count while the registry is held to a list
/// that names it so often: one each time, or one where it is not named and its
/// room is closed.
pub open spec fn counts_needed(times: nat, is_open: bool) -> nat {
    if times > 0 {
        times
    } else if is_open {
        1
    } else {
        0
    }
}

/// Is there room to count all that `rooms` may change?
pub open spec fn rooms_fit(m: RegistryModel, rooms: Seq<LiveRoom>) -> bool {
    forall|c: Uuid| #[trigger]
        m.counter(c) + counts_needed(times_listed(rooms, c), m.rooms.contains_key(c)) <= u64::MAX
}

/// The first rooms of a list name a channel no more often than all of them.
proof fn lemma_times_listed_take(rooms: Seq<LiveRoom>, n: int, c: Uuid)
    requires
        0 <= n <= rooms.len(),
    ensures
        times_listed(rooms.take(n), c) <= times_listed(rooms, c),
    decreases rooms.len() - n,
{
    if n < rooms.len() {
        lemma_times_listed_take(rooms, n + 1, c);
        assert(rooms.take(n + 1).drop_last() =~= rooms.take(n));
    } else {
        assert(rooms.take(n) =~= rooms);
    }
}

/// A channel is named if it is named at all.
proof fn lemma_times_listed(rooms: Seq<LiveRoom>, c: Uuid)
    ensures
        times_listed(rooms, c) > 0 <==> live_channels(rooms).contains(c),
        times_listed(rooms, c) <= rooms.len(),
    decreases rooms.len(),
{
    if rooms.len() > 0 {
        let some = rooms.drop_last();
        lemma_times_listed(some, c);
        if live_channels(some).contains(c) {
            let i = choose|i: int| 0 <= i < some.len() && (#[trigger] some[i]).channel_id == c;
            assert(rooms[i].channel_id == c);
        }
        if rooms.last().channel_id == c {
            assert(rooms[rooms.len() - 1].channel_id == c);
        }
        if live_channels(rooms).contains(c) && rooms.last().channel_id != c {
            let i = choose|i: int| 0 <= i < rooms.len() && (#[trigger] rooms[i]).channel_id == c;
            assert(some[i].channel_id == c);
        }
    }
}

/// How often a list of rooms names a channel.
fn count_listed(rooms: &Vec<LiveRoom>, c: ChannelId) -> (r: usize)
    ensures
        r == times_listed(rooms@, c),
{
    let mut n: usize = 0;
    for i in 0..rooms.len()
        invariant
            n == times_listed(rooms@.take(i as int), c),
            n <= i,
    {
        proof {
            assert(rooms@.take(i + 1).drop_last() =~= rooms@.take(i as int));
        }
        if rooms[i].channel_id == c {
            n += 1;
        }
    }
    assert(rooms@.take(rooms@.len() as int) =~= rooms@);
    n
}

/// Is there room to count all that `rooms` may change?
pub fn can_reconcile(registry: &VoiceRegistry, rooms: &Vec<LiveRoom>) -> (r: bool)
    ensures
        r == rooms_fit(registry@, rooms@),
{
    let ghost m = registry@;
    for i in 0..rooms.len()
        invariant
            m == registry@,
            forall|j: int|
                0 <= j < i ==> m.counter((#[trigger] rooms@[j]).channel_id) + times_listed(
                    rooms@,
                    rooms@[j].channel_id,
                ) <= u64::MAX,
    {
        let c: ChannelId = rooms[i].channel_id;
        let times: usize = count_listed(rooms, c);
        if registry.counter(c) > u64::MAX - times as u64 {
            proof {
                assert(rooms@[i as int].channel_id == c);
                lemma_times_listed(rooms@, c);
                assert(m.counter(c) + counts_needed(times_listed(rooms@, c), m.rooms.contains_key(c))
                    > u64::MAX);
            }
            return false;
        }
    }
    let open: Vec<ChannelId> = registry.all_channel_ids();
    for i in 0..open.len()
        invariant
            m == registry@,
            forall|j: int| 0 <= j < open@.len() ==> m.rooms.contains_key(#[trigger] open@[j]),
            forall|j: int|
                0 <= j < i && times_listed(rooms@, #[trigger] open@[j]) == 0 ==> m.can_count(open@[j]),
    {
        let c: ChannelId = open[i];
        if count_listed(rooms, c) == 0 && !registry.can_count(c) {
            assert(m.rooms.contains_key(open@[i as int]));
            assert(m.counter(c) + counts_needed(times_listed(rooms@, c), m.rooms.contains_key(c))
                > u64::MAX);
            return false;
        }
    }
    proof {
        assert forall|c: Uuid| #[trigger]
            m.counter(c) + counts_needed(times_listed(rooms@, c), m.rooms.contains_key(c)) <= u64::MAX by {
            lemma_times_listed(rooms@, c);
            registry.lemma_counter_fits(c);
            if times_listed(rooms@, c) > 0 {
                let j = choose|j: int| 0 <= j < rooms@.len() && (#[trigger] rooms@[j]).channel_id == c;
                assert(rooms@[j].channel_id == c);
            } else if m.rooms.contains_key(c) {
                assert(m.rooms.dom().contains(c));
                assert(open@.contains(c));
                let j = choose|j: int| 0 <= j < open@.len() && open@[j] == c;
                assert(m.can_count(open@[j]));
            }
        }
    }
    true
}

/// Holds the registry to all that LiveKit lists, at a given moment.
pub fn reconcile_rooms_at(registry: &mut VoiceRegistry, rooms: &Vec<LiveRoom>, now: Reading) -> (r: Vec<
    RoomChange,
>)
    requires
        old(registry).wf(),
        rooms_fit(old(registry)@, rooms@),
    ensures
        final(registry).wf(),
        final(registry).clock() == old(registry).clock(),
        (final(registry)@, change_list(r@)) == reconciled_all(old(registry)@, rooms@, now),
{
    let ghost m = registry@;
    let mut changes: Vec<RoomChange> = Vec::new();
    let mut live: HashSet<ChannelId> = HashSet::new();
    proof {
        assert(change_list(changes@) =~= Seq::empty());
    }
    for i in 0..rooms.len()
        invariant
            m == old(registry)@,
            rooms_fit(m, rooms@),
            registry.wf(),
            registry.clock() == old(registry).clock(),
            (registry@, change_list(changes@)) == reconciled_each(m, rooms@.take(i as int), now),
            forall|c: Uuid| #[trigger]
                registry@.counter(c) <= m.counter(c) + times_listed(rooms@.take(i as int), c),
            forall|c: Uuid|
                !live@.contains(c) ==> (#[trigger] registry@.rooms.contains_key(c) <==> m.rooms.contains_key(c)),
            forall|c: Uuid| #[trigger] live@.contains(c) <==> exists|j: int|
                0 <= j < i && (#[trigger] rooms@[j]).channel_id == c,
    {
        let room: &LiveRoom = &rooms[i];
        let ghost middle = registry@;
        let ghost some = changes@;
        let ghost before = live@;
        let ghost id = room.channel_id;
        proof {
            assert(rooms@.take(i + 1).drop_last() =~= rooms@.take(i as int));
            assert(rooms@.take(i + 1).last() == *room);
            assert(middle.counter(id) <= m.counter(id) + times_listed(rooms@.take(i as int), id));
            lemma_times_listed_take(rooms@, i + 1, id);
            assert(m.counter(id) + counts_needed(times_listed(rooms@, id), m.rooms.contains_key(id))
                <= u64::MAX);
        }
        let change: RoomChange = registry.reconcile_room_at(room.channel_id, &room.participants, now);
        live.insert(room.channel_id);
        proof {
            let list = live_list(room.participants@);
            assert forall|c: Uuid| #[trigger] registry@.counter(c) <= m.counter(c) + times_listed(
                rooms@.take(i + 1),
                c,
            ) by {
                lemma_reconciled_counts_one(middle, id, list, now, c);
                assert(middle.counter(c) <= m.counter(c) + times_listed(rooms@.take(i as int), c));
            }
            assert forall|c: Uuid| !live@.contains(c) implies (#[trigger] registry@.rooms.contains_key(c)
                <==> m.rooms.contains_key(c)) by {
                lemma_reconciled_counts_one(middle, id, list, now, c);
                assert(!before.contains(c));
                assert(c != id);
            }
            assert forall|c: Uuid| #[trigger] live@.contains(c) <==> exists|j: int|
                0 <= j < i + 1 && (#[trigger] rooms@[j]).channel_id == c by {
                if live@.contains(c) {
                    if c == room.channel_id {
                        assert(rooms@[i as int].channel_id == c);
                    } else {
                        assert(before.contains(c));
                    }
                }
                if exists|j: int| 0 <= j < i + 1 && (#[trigger] rooms@[j]).channel_id == c {
                    let j = choose|j: int| 0 <= j < i + 1 && (#[trigger] rooms@[j]).channel_id == c;
                    if j < i {
                        assert(before.contains(c));
                    }
                }
            }
            lemma_change_list_push(some, change);
        }
        if !change.is_empty() {
            changes.push(change);
        }
    }
    proof {
        assert(rooms@.take(rooms@.len() as int) =~= rooms@);
        assert(live@ =~= live_channels(rooms@));
        assert forall|c: Uuid| #[trigger] registry@.unreported(live@).contains(c) implies registry@.can_count(
            c,
        ) by {
            lemma_times_listed(rooms@, c);
            assert(registry@.rooms.contains_key(c));
            assert(registry@.counter(c) <= m.counter(c) + times_listed(rooms@, c));
            assert(m.counter(c) + counts_needed(times_listed(rooms@, c), m.rooms.contains_key(c))
                <= u64::MAX);
        }
    }
    let ghost each = change_list(changes@);
    let mut closed: Vec<RoomChange> = registry.reconcile_prune(&live);
    let ghost pruned = change_list(closed@);
    changes.append(&mut closed);
    assert(change_list(changes@) =~= each + pruned);
    changes
}

/// The rooms of a list whose name can be read, each with the participants
/// whose identity can be read.
pub open spec fn rooms_recognized(s: Seq<(String, Vec<RoomParticipant>)>, rooms: Seq<LiveRoom>) -> bool
    decreases s.len(),
{
    if s.len() == 0 {
        rooms.len() == 0
    } else {
        match uuid_of_text(s.last().0@) {
            Some(id) => {
                &&& rooms.len() > 0
                &&& rooms.last().channel_id == id
                &&& live_list(rooms.last().participants@) == all_recognized(s.last().1@)
                &&& rooms_recognized(s.drop_last(), rooms.drop_last())
            },
            None => rooms_recognized(s.drop_last(), rooms),
        }
    }
}

/// The rooms of a list whose name can be read.
pub fn recognize_rooms(snapshot: &Vec<(String, Vec<RoomParticipant>)>) -> (r: Vec<LiveRoom>)
    ensures
        rooms_recognized(snapshot@, r@),
        r@.len() <= snapshot@.len(),
{
    let mut out: Vec<LiveRoom> = Vec::new();
    for i in 0..snapshot.len()
        invariant
            rooms_recognized(snapshot@.take(i as int), out@),
            out@.len() <= i,
    {
        let entry: &(String, Vec<RoomParticipant>) = &snapshot[i];
        let ghost before = out@;
        proof {
            assert(snapshot@.take(i + 1).drop_last() =~= snapshot@.take(i as int));
            assert(snapshot@.take(i + 1).last() == *entry);
        }
        if let Some(channel_id) = parse_uuid(entry.0.as_str()) {
            out.push(LiveRoom { channel_id, participants: map_to_reconciled(&entry.1) });
            assert(out@.drop_last() =~= before);
        }
    }
    assert(snapshot@.take(snapshot@.len() as int) =~= snapshot@);
    out
}

/// How often a snapshot names a channel.
pub open spec fn times_named(s: Seq<(String, Vec<RoomParticipant>)>, c: Uuid) -> nat
    decreases s.len(),
{
    if s.len() == 0 {
        0
    } else if uuid_of_text(s.last().0@) == Some(c) {
        times_named(s.drop_last(), c) + 1
    } else {
        times_named(s.drop_last(), c)
    }
}

/// Is there room to count all that a snapshot may change?
pub open spec fn snapshot_fits(m: RegistryModel, s: Seq<(String, Vec<RoomParticipant>)>) -> bool {
    forall|c: Uuid| #[trigger]
        m.counter(c) + counts_needed(times_named(s, c), m.rooms.contains_key(c)) <= u64::MAX
}

/// A snapshot names a channel as often as its rooms do.
proof fn lemma_times_named(s: Seq<(String, Vec<RoomParticipant>)>, rooms: Seq<LiveRoom>, c: Uuid)
    requires
        rooms_recognized(s, rooms),
    ensures
        times_named(s, c) == times_listed(rooms, c),
    decreases s.len(),
{
    if s.len() > 0 {
        match uuid_of_text(s.last().0@) {
            Some(_) => lemma_times_named(s.drop_last(), rooms.drop_last(), c),
            None => lemma_times_named(s.drop_last(), rooms, c),
        }
    }
}

/// Holds the registry to all that LiveKit lists. This is what rebuilds voice
/// presence after a restart or a lost webhook: LiveKit does not say again who
/// joined. `None`: a channel that the snapshot names, or whose room it closes,
/// has no room left to count that.
pub fn reconcile_voice_rooms(registry: &mut VoiceRegistry, snapshot: &Vec<(String, Vec<RoomParticipant>)>) -> (r:
    Option<Vec<RoomChange>>)
    requires
        old(registry).wf(),
    ensures
        final(registry).wf(),
        final(registry).clock() == old(registry).clock(),
        r is Some <==> snapshot_fits(old(registry)@, snapshot@),
        match r {
            Some(changes) => exists|rooms: Seq<LiveRoom>, now: Reading|
                now.is_plausible() && rooms_recognized(snapshot@, rooms) && (final(registry)@, change_list(changes@))
                    == #[trigger] reconciled_all(old(registry)@, rooms, now),
            None => final(registry)@ == old(registry)@,
        },
{
    let rooms: Vec<LiveRoom> = recognize_rooms(snapshot);
    let now: Reading = registry.read_clock();
    proof {
        let m = registry@;
        assert forall|c: Uuid| #[trigger] times_named(snapshot@, c) == times_listed(rooms@, c) by {
            lemma_times_named(snapshot@, rooms@, c);
        }
        if rooms_fit(m, rooms@) {
            assert forall|c: Uuid| #[trigger]
                m.counter(c) + counts_needed(times_named(snapshot@, c), m.rooms.contains_key(c)) <= u64::MAX by {
                assert(m.counter(c) + counts_needed(times_listed(rooms@, c), m.rooms.contains_key(c))
                    <= u64::MAX);
            }
        }
        if snapshot_fits(m, snapshot@) {
            assert forall|c: Uuid| #[trigger]
                m.counter(c) + counts_needed(times_listed(rooms@, c), m.rooms.contains_key(c)) <= u64::MAX by {
                assert(m.counter(c) + counts_needed(times_named(snapshot@, c), m.rooms.contains_key(c))
                    <= u64::MAX);
            }
        }
    }
    if can_reconcile(registry, &rooms) {
        Some(reconcile_rooms_at(registry, &rooms, now))
    } else {
        None
    }
}

/// Holds one channel to the participants that LiveKit lists in it.
pub fn reconcile_one_room(
    registry: &mut VoiceRegistry,
    channel_id: ChannelId,
    participants: &Vec<RoomParticipant>,
) -> (r: RoomChange)
    requires
        old(registry).wf(),
        old(registry)@.can_count(channel_id),
    ensures
        final(registry).wf(),
        final(registry).clock() == old(registry).clock(),
        exists|now: Reading|
            now.is_plausible() && (final(registry)@, r@) == #[trigger] old(registry)@.reconciled(
                channel_id,
                all_recognized(participants@),
                now,
            ),
{
    registry.reconcile_room(channel_id, map_to_reconciled(participants))
}

/// Is no channel in the list twice?
pub open spec fn distinct_channels(rooms: Seq<LiveRoom>) -> bool {
    forall|i: int, j: int|
        0 <= i < j < rooms.len() ==> (#[trigger] rooms[i]).channel_id != (#[trigger] rooms[j]).channel_id
}

/// Is `user` in the listed room of `channel`?
pub open spec fn is_listed(rooms: Seq<LiveRoom>, channel: Uuid, user: Uuid) -> bool {
    exists|i: int|
        0 <= i < rooms.len() && (#[trigger] rooms[i]).channel_id == channel && live_users(
            live_list(rooms[i].participants@),
        ).contains(user)
}

/// What reconciling rooms one after the other leaves: in a listed channel,
/// confirmed, exactly who is listed; any other channel as it was.
proof fn lemma_each_mirrors(m: RegistryModel, rooms: Seq<LiveRoom>, now: Reading, c: Uuid, u: Uuid)
    requires
        m.valid(),
        distinct_channels(rooms),
    ensures
        ({
            let after = reconciled_each(m, rooms, now).0;
            &&& after.valid()
            &&& live_channels(rooms).contains(c) ==> (after.has_confirmed(c, u) <==> is_listed(rooms, c, u))
            &&& !live_channels(rooms).contains(c) ==> (after.rooms.contains_key(c)
                <==> m.rooms.contains_key(c)) && after.rooms[c] == m.rooms[c]
        }),
    decreases rooms.len(),
{
    if rooms.len() > 0 {
        let some = rooms.drop_last();
        let last = rooms.last();
        let middle = reconciled_each(m, some, now).0;
        let live = live_list(last.participants@);
        let room = middle.opened(last.channel_id);
        let outcome = room.reconciled(last.channel_id, live, now);
        assert forall|i: int, j: int| 0 <= i < j < some.len() implies (#[trigger] some[i]).channel_id != (
        #[trigger] some[j]).channel_id by {
            assert(rooms[i].channel_id != rooms[j].channel_id);
        }
        lemma_each_mirrors(m, some, now, c, u);
        lemma_opened_valid(middle, last.channel_id);
        lemma_reconciled_valid(room, last.channel_id, live, now);
        lemma_settled_valid(middle, last.channel_id, outcome);
        law_reconcile_mirrors(room, last.channel_id, live, now, u);
        let n = rooms.len() - 1;
        assert(rooms[n] == last);
        if live_channels(some).contains(c) {
            let i = choose|i: int| 0 <= i < some.len() && (#[trigger] some[i]).channel_id == c;
            assert(rooms[i].channel_id != rooms[n].channel_id);
            assert(rooms[i].channel_id == c);
        }
        if live_channels(rooms).contains(c) && c != last.channel_id {
            let i = choose|i: int| 0 <= i < rooms.len() && (#[trigger] rooms[i]).channel_id == c;
            assert(some[i].channel_id == c);
        }
        if is_listed(rooms, c, u) {
            let i = choose|i: int|
                0 <= i < rooms.len() && (#[trigger] rooms[i]).channel_id == c && live_users(
                    live_list(rooms[i].participants@),
                ).contains(u);
            if i < n {
                assert(some[i] == rooms[i]);
                assert(rooms[i].channel_id != rooms[n].channel_id);
            }
        }
        if is_listed(some, c, u) {
            let i = choose|i: int|
                0 <= i < some.len() && (#[trigger] some[i]).channel_id == c && live_users(
                    live_list(some[i].participants@),
                ).contains(u);
            assert(rooms[i] == some[i]);
        }
        if c == last.channel_id {
            assert(rooms[n].channel_id == c);
            if closes(outcome) {
                assert(!outcome.0.participants.dom().contains(u));
            }
        }
    }
}

/// The registry is rebuilt from what LiveKit lists, whatever it held before: a
/// user is confirmed in a channel exactly where LiveKit lists it. (Of a
/// channel that is listed twice the later list would count.)
pub proof fn law_snapshot_rebuilds(m: RegistryModel, rooms: Seq<LiveRoom>, now: Reading, c: Uuid, u: Uuid)
    requires
        m.valid(),
        distinct_channels(rooms),
    ensures
        reconciled_all(m, rooms, now).0.has_confirmed(c, u) <==> is_listed(rooms, c, u),
        !live_channels(rooms).contains(c) ==> !reconciled_all(m, rooms, now).0.rooms.contains_key(c),
{
    lemma_each_mirrors(m, rooms, now, c, u);
    let middle = reconciled_each(m, rooms, now).0;
    let after = reconciled_all(m, rooms, now).0;
    if middle.unreported(live_channels(rooms)).contains(c) {
        let outcome = middle.rooms[c].closed(c, ChangeReason::ReconcileRemoved);
        assert(outcome.0.participants.dom() =~= Set::empty());
        assert(closes(outcome));
    }
    if is_listed(rooms, c, u) {
        let i = choose|i: int|
            0 <= i < rooms.len() && (#[trigger] rooms[i]).channel_id == c && live_users(
                live_list(rooms[i].participants@),
            ).contains(u);
        assert(rooms[i].channel_id == c);
    }
}

/// Of the tracks of a participant those of a source that is projected are
/// taken, in their order, each with its SID and whether it is muted.
pub proof fn law_tracks_projected(tracks: Seq<(String, String, bool)>)
    ensures
        projected(tracks) == tracks.filter(
            |t: (String, String, bool)| TrackSource::named(t.1@) is Some,
        ).map_values(
            |t: (String, String, bool)|
                LiveTrack { sid: t.0@, source: TrackSource::named(t.1@)->0, muted: t.2 },
        ),
    decreases tracks.len(),
{
    reveal(Seq::filter);
    let p = |t: (String, String, bool)| TrackSource::named(t.1@) is Some;
    let f = |t: (String, String, bool)|
        LiveTrack { sid: t.0@, source: TrackSource::named(t.1@)->0, muted: t.2 };
    if tracks.len() > 0 {
        law_tracks_projected(tracks.drop_last());
        assert(projected(tracks) =~= tracks.filter(p).map_values(f));
    } else {
        assert(projected(tracks) =~= tracks.filter(p).map_values(f));
    }
}

/// Of the participants that LiveKit lists those whose identity is an identifier
/// are taken, in their order, each under that identifier and its session, and
/// with its tracks.
pub proof fn law_participants_recognized(s: Seq<RoomParticipant>)
    ensures
        all_recognized(s) == s.filter(
            |p: RoomParticipant| uuid_of_text(p.identity@) is Some,
        ).map_values(
            |p: RoomParticipant|
                LiveParticipant {
                    user_id: uuid_of_text(p.identity@)->0,
                    sid: p.sid@,
                    tracks: projected(p.tracks@),
                },
        ),
    decreases s.len(),
{
    reveal(Seq::filter);
    let p = |p: RoomParticipant| uuid_of_text(p.identity@) is Some;
    let f = |p: RoomParticipant|
        LiveParticipant {
            user_id: uuid_of_text(p.identity@)->0,
            sid: p.sid@,
            tracks: projected(p.tracks@),
        };
    if s.len() > 0 {
        law_participants_recognized(s.drop_last());
        assert(all_recognized(s) =~= s.filter(p).map_values(f));
    } else {
        assert(all_recognized(s) =~= s.filter(p).map_values(f));
    }
}

/// One participant is recognized under the identifier that its identity was read
/// as, and not at all where it was not read.
pub proof fn law_participant_recognized(user_id: Option<Uuid>, p: RoomParticipant)
    ensures
        recognized(user_id, p) is Some <==> user_id is Some,
        user_id is Some ==> {
            let live = recognized(user_id, p)->0;
            &&& live.user_id == user_id->0
            &&& live.sid == p.sid@
            &&& live.tracks == projected(p.tracks@)
        },
{
}

/// Of the rooms that LiveKit lists those whose name is an identifier are taken,
/// in their order, each with the participants that are recognized.
pub proof fn law_rooms_recognized(s: Seq<(String, Vec<RoomParticipant>)>, rooms: Seq<LiveRoom>, i: int)
    requires
        rooms_recognized(s, rooms),
    ensures
        ({
            let ours = s.filter(|r: (String, Vec<RoomParticipant>)| uuid_of_text(r.0@) is Some);
            &&& rooms.len() == ours.len()
            &&& 0 <= i < rooms.len() ==> {
                &&& rooms[i].channel_id == uuid_of_text(ours[i].0@)->0
                &&& live_list(rooms[i].participants@) == all_recognized(ours[i].1@)
            }
        }),
    decreases s.len(),
{
    reveal(Seq::filter);
    if s.len() > 0 {
        match uuid_of_text(s.last().0@) {
            Some(_) => law_rooms_recognized(s.drop_last(), rooms.drop_last(), i),
            None => law_rooms_recognized(s.drop_last(), rooms, i),
        }
    }
}

/// What reconciling rooms one after the other leaves of a channel, where none is
/// listed twice.
proof fn lemma_each_held(m: RegistryModel, rooms: Seq<LiveRoom>, now: Reading, i: int)
    requires
        distinct_channels(rooms),
        0 <= i < rooms.len(),
    ensures
        ({
            let c = rooms[i].channel_id;
            let (after, ds) = reconciled_each(m, rooms, now);
            let step = m.reconciled(c, live_list(rooms[i].participants@), now);
            &&& after.rooms.contains_key(c) == step.0.rooms.contains_key(c)
            &&& after.rooms.contains_key(c) ==> after.rooms[c] == step.0.rooms[c]
            &&& after.counter(c) == step.0.counter(c)
            &&& !step.1.is_empty() ==> ds.contains(step.1)
        }),
    decreases rooms.len(),
{
    let some = rooms.drop_last();
    let (middle, ds) = reconciled_each(m, some, now);
    let last = rooms.last();
    assert forall|j: int, k: int| 0 <= j < k < some.len() implies (#[trigger] some[j]).channel_id != (
    #[trigger] some[k]).channel_id by {
        assert(rooms[j].channel_id != rooms[k].channel_id);
    }
    let c = rooms[i].channel_id;
    let step = m.reconciled(c, live_list(rooms[i].participants@), now);
    let now_step = middle.reconciled(last.channel_id, live_list(last.participants@), now);
    if i < some.len() {
        assert(some[i] == rooms[i]);
        lemma_each_held(m, some, now, i);
        assert(rooms[i].channel_id != rooms[rooms.len() - 1].channel_id);
        if !step.1.is_empty() {
            let k = choose|k: int| 0 <= k < ds.len() && ds[k] == step.1;
            assert(ds.push(now_step.1)[k] == step.1);
        }
    } else {
        assert forall|j: int| 0 <= j < some.len() implies (#[trigger] some[j]).channel_id != c by {
            assert(rooms[j].channel_id != rooms[i].channel_id);
        }
        lemma_each_apart(m, some, now, c);
        assert(middle.opened(c) == m.opened(c));
        if !step.1.is_empty() {
            assert(ds.push(now_step.1)[ds.len() as int] == step.1);
        }
    }
}

/// Reconciling rooms leaves a channel that is not listed as it was.
proof fn lemma_each_apart(m: RegistryModel, rooms: Seq<LiveRoom>, now: Reading, c: Uuid)
    requires
        distinct_channels(rooms),
        forall|i: int| 0 <= i < rooms.len() ==> (#[trigger] rooms[i]).channel_id != c,
    ensures
        ({
            let after = reconciled_each(m, rooms, now).0;
            &&& after.rooms.contains_key(c) == m.rooms.contains_key(c)
            &&& after.rooms.contains_key(c) ==> after.rooms[c] == m.rooms[c]
            &&& after.retired.contains_key(c) == m.retired.contains_key(c)
            &&& after.retired.contains_key(c) ==> after.retired[c] == m.retired[c]
        }),
    decreases rooms.len(),
{
    if rooms.len() > 0 {
        let some = rooms.drop_last();
        assert forall|j: int, k: int| 0 <= j < k < some.len() implies (#[trigger] some[j]).channel_id != (
        #[trigger] some[k]).channel_id by {
            assert(rooms[j].channel_id != rooms[k].channel_id);
        }
        assert forall|i: int| 0 <= i < some.len() implies (#[trigger] some[i]).channel_id != c by {
            assert(some[i] == rooms[i]);
        }
        lemma_each_apart(m, some, now, c);
        assert(rooms[rooms.len() - 1].channel_id != c);
    }
}

/// The registry is held to all that LiveKit lists: each listed channel has the
/// room that its own reconciliation gives, with the participants that are
/// listed in it, and what that changes is reported. (Of a channel that is listed
/// twice the later list would count.)
pub proof fn law_listed_rooms_held(m: RegistryModel, rooms: Seq<LiveRoom>, now: Reading, i: int)
    requires
        m.valid(),
        distinct_channels(rooms),
        0 <= i < rooms.len(),
    ensures
        ({
            let c = rooms[i].channel_id;
            let (after, ds) = reconciled_all(m, rooms, now);
            let step = m.reconciled(c, live_list(rooms[i].participants@), now);
            &&& after.rooms.contains_key(c) == step.0.rooms.contains_key(c)
            &&& after.rooms.contains_key(c) ==> after.rooms[c] == step.0.rooms[c]
            &&& step.1.version_before != step.1.version_after ==> ds.contains(step.1)
        }),
{
    let c = rooms[i].channel_id;
    lemma_each_held(m, rooms, now, i);
    lemma_each_mirrors(m, rooms, now, c, 0);
    let (middle, ds) = reconciled_each(m, rooms, now);
    let live = live_channels(rooms);
    assert(live.contains(c));
    law_prune_sweep(middle, live, c);
    let step = m.reconciled(c, live_list(rooms[i].participants@), now);
    let closed = middle.pruned(live).1;
    if step.1.version_before != step.1.version_after {
        let k = choose|k: int| 0 <= k < ds.len() && ds[k] == step.1;
        assert((ds + closed)[k] == step.1);
    }
}

/// A room that LiveKit does not list is closed, and that is reported, with
/// everyone and everything that was in it. A list of rooms has the channels that
/// it names.
pub proof fn law_unlisted_rooms_closed(m: RegistryModel, rooms: Seq<LiveRoom>, now: Reading, c: Uuid)
    requires
        m.valid(),
        distinct_channels(rooms),
        forall|i: int| 0 <= i < rooms.len() ==> (#[trigger] rooms[i]).channel_id != c,
    ensures
        ({
            let (after, ds) = reconciled_all(m, rooms, now);
            let gone = m.rooms[c].closed(c, ChangeReason::ReconcileRemoved);
            &&& !after.rooms.contains_key(c)
            &&& m.rooms.contains_key(c) ==> after.counter(c) == gone.0.version && exists|k: int|
                0 <= k < ds.len() && reports(#[trigger] ds[k], gone)
            &&& !m.rooms.contains_key(c) ==> after.counter(c) == m.counter(c)
        }),
{
    lemma_each_apart(m, rooms, now, c);
    lemma_each_mirrors(m, rooms, now, c, 0);
    let (middle, ds) = reconciled_each(m, rooms, now);
    let live = live_channels(rooms);
    assert(!live.contains(c));
    law_prune_sweep(middle, live, c);
    let closed = middle.pruned(live).1;
    if m.rooms.contains_key(c) {
        let gone = m.rooms[c].closed(c, ChangeReason::ReconcileRemoved);
        assert(empties(gone));
        assert(middle.rooms[c] == m.rooms[c]);
        let k = choose|k: int| 0 <= k < closed.len() && reports(#[trigger] closed[k], gone);
        let all = reconciled_all(m, rooms, now).1;
        assert(all == ds + closed);
        assert(all[ds.len() + k] == closed[k]);
        assert(reports(all[ds.len() + k], gone));
        assert(reconciled_all(m, rooms, now).0.counter(c) == gone.0.version);
    } else {
        assert(reconciled_all(m, rooms, now).0.counter(c) == m.counter(c));
    }
}

/// A snapshot is taken in while every channel has room to count one version more
/// than the snapshot has rooms; a channel that it names once, or whose room it
/// closes, needs room for one.
pub proof fn law_snapshot_has_room(
    m: RegistryModel,
    s: Seq<(String, Vec<RoomParticipant>)>,
    rooms: Seq<LiveRoom>,
    c: Uuid,
)
    ensures
        has_room(m, s.len() + 1) ==> snapshot_fits(m, s),
        has_room(m, rooms.len() + 1) ==> rooms_fit(m, rooms),
        snapshot_fits(m, s) && m.rooms.contains_key(c) ==> m.counter(c) < u64::MAX,
        rooms_fit(m, rooms) && m.rooms.contains_key(c) ==> m.counter(c) < u64::MAX,
{
    if has_room(m, s.len() + 1) {
        assert forall|d: Uuid| #[trigger]
            m.counter(d) + counts_needed(times_named(s, d), m.rooms.contains_key(d)) <= u64::MAX by {
            lemma_times_named_bound(s, d);
            assert(m.counter(d) + (s.len() + 1) <= u64::MAX);
        }
    }
    if has_room(m, rooms.len() + 1) {
        assert forall|d: Uuid| #[trigger]
            m.counter(d) + counts_needed(times_listed(rooms, d), m.rooms.contains_key(d)) <= u64::MAX by {
            lemma_times_listed(rooms, d);
            assert(m.counter(d) + (rooms.len() + 1) <= u64::MAX);
        }
    }
    if snapshot_fits(m, s) {
        assert(m.counter(c) + counts_needed(times_named(s, c), m.rooms.contains_key(c)) <= u64::MAX);
    }
    if rooms_fit(m, rooms) {
        assert(m.counter(c) + counts_needed(times_listed(rooms, c), m.rooms.contains_key(c)) <= u64::MAX);
    }
}

proof fn lemma_times_named_bound(s: Seq<(String, Vec<RoomParticipant>)>, c: Uuid)
    ensures
        times_named(s, c) <= s.len(),
    decreases s.len(),
{
    if s.len() > 0 {
        lemma_times_named_bound(s.drop_last(), c);
    }
}

/// A snapshot leaves a room only of a channel that it names, and is taken in
/// while every channel has room to count.
pub proof fn law_snapshot_taken_in(
    registry: &mut VoiceRegistry,
    snapshot: &Vec<(String, Vec<RoomParticipant>)>,
    r: Option<Vec<RoomChange>>,
    c: Uuid,
)
    requires
        old(registry).wf(),
        call_ensures(reconcile_voice_rooms, (registry, snapshot), r),
    ensures
        has_room(old(registry)@, snapshot@.len() + 1) ==> r is Some,
        r is None ==> final(registry)@ == old(registry)@,
        r is Some ==> exists|rooms: Seq<LiveRoom>, now: Reading|
            now.is_plausible() && rooms_recognized(snapshot@, rooms) && (final(registry)@, change_list(r->0@))
                == #[trigger] reconciled_all(old(registry)@, rooms, now),
        r is Some && final(registry)@.rooms.contains_key(c) ==> exists|i: int|
            0 <= i < snapshot@.len() && uuid_of_text((#[trigger] snapshot@[i]).0@) == Some(c),
{
    let m = old(registry)@;
    law_snapshot_has_room(m, snapshot@, Seq::empty(), c);
    if r is Some {
        let (rooms, now) = choose|rooms: Seq<LiveRoom>, now: Reading|
            now.is_plausible() && rooms_recognized(snapshot@, rooms) && (final(registry)@, change_list(r->0@))
                == #[trigger] reconciled_all(m, rooms, now);
        assert(final(registry)@ == reconciled_all(m, rooms, now).0);
        assert(change_list(r->0@) == reconciled_all(m, rooms, now).1);
        if final(registry)@.rooms.contains_key(c) {
            let live = live_channels(rooms);
            let middle = reconciled_each(m, rooms, now).0;
            assert(live.contains(c)) by {
                if !live.contains(c) {
                    assert(middle.unreported(live).contains(c) <==> middle.rooms.contains_key(c));
                    lemma_pruned_gone(middle, live, c);
                }
            }
            lemma_times_listed(rooms, c);
            lemma_times_named(snapshot@, rooms, c);
            lemma_named_somewhere(snapshot@, c);
        }
    }
}

/// A channel that is not reported has no room after a prune.
proof fn lemma_pruned_gone(m: RegistryModel, live: Set<Uuid>, c: Uuid)
    requires
        !live.contains(c),
    ensures
        !m.pruned(live).0.rooms.contains_key(c),
{
    let gone = m.rooms[c].closed(c, ChangeReason::ReconcileRemoved);
    assert(gone.0.participants.dom() =~= Set::<Uuid>::empty());
    assert(closes(gone));
}

/// A channel that is named is named somewhere.
proof fn lemma_named_somewhere(s: Seq<(String, Vec<RoomParticipant>)>, c: Uuid)
    requires
        times_named(s, c) > 0,
    ensures
        exists|i: int| 0 <= i < s.len() && uuid_of_text((#[trigger] s[i]).0@) == Some(c),
    decreases s.len(),
{
    let some = s.drop_last();
    if uuid_of_text(s.last().0@) == Some(c) {
        assert(uuid_of_text(s[s.len() - 1].0@) == Some(c));
    } else {
        lemma_named_somewhere(some, c);
        let i = choose|i: int| 0 <= i < some.len() && uuid_of_text((#[trigger] some[i]).0@) == Some(c);
        assert(uuid_of_text(s[i].0@) == Some(c));
    }
}

/// One channel is held to those whom LiveKit lists in it: who is recognized is
/// in it, under the listed session, and nobody else is confirmed in it.
pub proof fn law_one_room_held(
    registry: &mut VoiceRegistry,
    channel_id: ChannelId,
    participants: &Vec<RoomParticipant>,
    r: RoomChange,
    u: Uuid,
)
    requires
        old(registry).wf(),
        call_ensures(reconcile_one_room, (registry, channel_id, participants), r),
        final(registry)@.rooms.contains_key(channel_id),
    ensures
        ({
            let room = final(registry)@.rooms[channel_id];
            let live = participants@.filter(
                |p: RoomParticipant| uuid_of_text(p.identity@) is Some,
            );
            &&& room.participants.contains_key(u) && room.participants[u].sid is Some <==> exists|i: int|
                0 <= i < live.len() && uuid_of_text((#[trigger] live[i]).identity@) == Some(u)
            &&& r.channel_id == channel_id
        }),
{
    let m = old(registry)@;
    let list = all_recognized(participants@);
    let now = choose|now: Reading|
        now.is_plausible() && (final(registry)@, r@) == #[trigger] m.reconciled(channel_id, list, now);
    lemma_opened_valid(m, channel_id);
    law_closing_steps(m, channel_id, 0, Seq::empty(), list, now);
    law_reconcile_mirrors(m.opened(channel_id), channel_id, list, now, u);
    law_participants_recognized(participants@);
    law_reconcile_counts(m.opened(channel_id), channel_id, list, now);
    let live = participants@.filter(|p: RoomParticipant| uuid_of_text(p.identity@) is Some);
    assert(list.len() == live.len());
    assert forall|i: int| 0 <= i < live.len() implies uuid_of_text((#[trigger] live[i]).identity@) == Some(
        list[i].user_id,
    ) by {
        participants@.lemma_filter_pred(
            |p: RoomParticipant| uuid_of_text(p.identity@) is Some,
            i,
        );
    }
    if live_users(list).contains(u) {
        let i = choose|i: int| 0 <= i < list.len() && (#[trigger] list[i]).user_id == u;
        assert(uuid_of_text(live[i].identity@) == Some(u));
    }
    if exists|i: int| 0 <= i < live.len() && uuid_of_text((#[trigger] live[i]).identity@) == Some(u) {
        let i = choose|i: int| 0 <= i < live.len() && uuid_of_text((#[trigger] live[i]).identity@) == Some(u);
        assert(list[i].user_id == u);
    }
}

} // verus!
