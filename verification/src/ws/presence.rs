//! What a client says of its voice presence, and what it is told of rooms.

use std::collections::HashSet;

use vstd::prelude::*;

use crate::clock::Reading;
use crate::ident::{Uuid, MUSIC_BOT_ID};
use crate::listing::{
    id_order, lemma_pick, lemma_picked, lemma_push_contains, lists, picks, sorted_ids, sorted_members,
};
use crate::protocol::{
    CallStateUpdate, CallStateUpdateEvent, Channel, OutboundEnvelope, Payload, VoicePresenceHint,
    VoiceRoomDto, VoiceRoomRequest, VoiceRoomState, VoiceRoomsSnapshot, VoiceRoster,
    VoiceTrackHint, ROOM_PROTOCOL,
};
use crate::text::{ascii_lower, optional_text, same_text};
use crate::voice::model::{ChangeModel, RegistryModel};
use crate::voice::projection::RoomShown;
use crate::voice::registry::{change_list, lemma_change_list_push, VoiceRegistry};
use crate::voice::room::is_session;
use crate::voice::rows::{
    ids_rise, law_hint_join, law_hint_leave, law_hint_publish, law_hint_unpublish, law_ids_listed,
    law_set_audio,
};
use crate::voice::shown::law_source_names;
use crate::voice::steps::law_claim_steps;
use crate::voice::tracks::has_id;
use crate::voice::types::{ChannelId, HintError, RoomChange, TrackSource, UserId};
use crate::voice::validity::{lemma_opened_valid, lemma_settle_none, lemma_settle_one_more};

verus! {

broadcast use vstd::std_specs::hash::group_hash_axioms;

/// How long after a client says that it left a channel is confirmed, in
/// milliseconds.
pub const LEAVE_RECONCILE_MS: u64 = 2_000;

/// How long every room counts as confirmed before a snapshot confirms them
/// anew, in milliseconds.
pub const SNAPSHOT_RECONCILE_MS: u64 = 5_000;

/// How many channels one request may name. More would make too large a query.
pub const MAX_REQUESTED_CHANNELS: usize = 100;

/// What is to be done about a presence hint.
#[derive(Debug)]
pub struct PresenceOutcome {
    /// The client is told that it may not join.
    pub refused: Option<OutboundEnvelope>,
    /// What changed, to be published in this order.
    pub changes: Vec<RoomChange>,
    /// The channels that are to be confirmed after `LEAVE_RECONCILE_MS`.
    pub reconcile: Vec<ChannelId>,
    /// Is LiveKit to be asked to end the session?
    pub end_session: bool,
}

/// The channels of `joined` in which LiveKit confirmed `user`, in order.
pub open spec fn to_confirm(m: RegistryModel, joined: Set<Uuid>, user: Uuid) -> Seq<Uuid> {
    sorted_ids(joined.filter(|c: Uuid| m.has_confirmed(c, user)))
}

/// The registry once `user` was hinted out of every channel of `joined`.
pub open spec fn hinted_out(m: RegistryModel, joined: Set<Uuid>, user: Uuid) -> RegistryModel {
    m.settled_all(
        joined.intersect(m.rooms.dom()),
        |c: Uuid| m.rooms[c].hint_left(c, user),
    )
}

/// What is reported of that, in the order of the channels.
pub open spec fn hinted_out_changes(m: RegistryModel, joined: Set<Uuid>, user: Uuid) -> Seq<ChangeModel> {
    sorted_ids(joined).map_values(|c: Uuid| m.hint_left(c, user).1)
}

/// May `user` join the channel? It has to be a voice channel of a community
/// that the user is a member of. The music bot is a member of none, and joins
/// any.
pub open spec fn joinable(channel: Option<&Channel>, user: Uuid, is_member: bool) -> bool {
    &&& channel matches Some(c) && c.kind@ == "voice"@
    &&& user == MUSIC_BOT_ID || is_member
}

/// Does the client name the session that LiveKit confirmed of `user`?
pub open spec fn names_own_session(m: RegistryModel, channel: Uuid, user: Uuid, sid: Option<Seq<char>>) -> bool {
    &&& m.rooms.contains_key(channel)
    &&& m.rooms[channel].participants.contains_key(user)
    &&& sid is Some
    &&& m.rooms[channel].participants[user].sid == sid
}

/// What a presence hint does.
pub open spec fn presence_hinted(
    m: RegistryModel,
    joined: Set<Uuid>,
    user: Uuid,
    channel: Option<&Channel>,
    is_member: bool,
    data: VoicePresenceHint,
    now: Reading,
    after: RegistryModel,
    joined_after: Set<Uuid>,
    outcome: PresenceOutcome,
) -> bool {
    let id = data.channel_id;
    if !joinable(channel, user, is_member) {
        &&& outcome.refused matches Some(e) && e.is_error(
            "forbidden"@,
            "not allowed to join this voice channel"@,
            None,
        )
        &&& outcome.changes@.len() == 0
        &&& outcome.reconcile@.len() == 0
        &&& !outcome.end_session
        &&& after == m
        &&& joined_after == joined
    } else if data.state@ == "joining"@ {
        let others = joined.remove(id);
        let step = hinted_out(m, others, user).hint_joined(
            id,
            user,
            optional_text(data.participant_sid),
            user == MUSIC_BOT_ID,
            now,
        );
        &&& outcome.refused is None
        &&& change_list(outcome.changes@) == hinted_out_changes(m, others, user).push(step.1)
        &&& outcome.reconcile@ == to_confirm(m, others, user)
        &&& !outcome.end_session
        &&& after == step.0
        &&& joined_after == set![id]
    } else if data.state@ == "leaving"@ {
        let step = m.hint_left(id, user);
        &&& outcome.refused is None
        &&& change_list(outcome.changes@) == seq![step.1]
        &&& outcome.reconcile@ == if m.has_confirmed(id, user) {
            seq![id]
        } else {
            Seq::empty()
        }
        &&& outcome.end_session <==> m.has_confirmed(id, user) && names_own_session(
            m,
            id,
            user,
            optional_text(data.participant_sid),
        )
        &&& after == step.0
        &&& joined_after == joined.remove(id)
    } else {
        &&& outcome.refused is None
        &&& outcome.changes@.len() == 0
        &&& outcome.reconcile@.len() == 0
        &&& !outcome.end_session
        &&& after == m
        &&& joined_after == joined
    }
}

/// Hints `user_id` out of every channel of `ids`, which are in order. Says
/// what changed and which channels have to be confirmed.
fn hint_out(registry: &mut VoiceRegistry, ids: &Vec<ChannelId>, user_id: UserId, Ghost(set): Ghost<Set<Uuid>>) -> (r:
    (Vec<RoomChange>, Vec<ChannelId>))
    requires
        old(registry).wf(),
        old(registry)@.can_count_in(set),
        lists(ids@, set, id_order()),
        ids@ == sorted_ids(set),
    ensures
        final(registry).wf(),
        final(registry).clock() == old(registry).clock(),
        final(registry)@ == hinted_out(old(registry)@, set, user_id),
        change_list(r.0@) == hinted_out_changes(old(registry)@, set, user_id),
        r.1@ == to_confirm(old(registry)@, set, user_id),
{
    let ghost m = registry@;
    let ghost f = |c: Uuid| m.rooms[c].hint_left(c, user_id);
    let ghost g = |c: Uuid| m.hint_left(c, user_id).1;
    let ghost p = |c: Uuid| m.has_confirmed(c, user_id);
    let ghost mut done: Set<Uuid> = Set::empty();
    let mut changes: Vec<RoomChange> = Vec::new();
    let mut confirm: Vec<ChannelId> = Vec::new();
    proof {
        assert(done.intersect(m.rooms.dom()) =~= Set::empty());
        lemma_settle_none(m, f);
        assert(change_list(changes@) =~= ids@.take(0).map_values(g));
    }
    for i in 0..ids.len()
        invariant
            m == old(registry)@,
            m.can_count_in(set),
            f == (|c: Uuid| m.rooms[c].hint_left(c, user_id)),
            g == (|c: Uuid| m.hint_left(c, user_id).1),
            p == (|c: Uuid| m.has_confirmed(c, user_id)),
            lists(ids@, set, id_order()),
            registry.wf(),
            registry.clock() == old(registry).clock(),
            registry@ == m.settled_all(done.intersect(m.rooms.dom()), f),
            forall|c: Uuid| #[trigger] done.contains(c) <==> exists|j: int|
                0 <= j < i && #[trigger] ids@[j] == c,
            change_list(changes@) == ids@.take(i as int).map_values(g),
            picks(confirm@, ids@, i as int, p, id_order()),
    {
        let c: ChannelId = ids[i];
        let ghost middle = registry@;
        let ghost some = changes@;
        proof {
            lemma_pick(confirm@, ids@, i as int, p, id_order());
            let lt = id_order();
            assert(!done.contains(c)) by {
                if done.contains(c) {
                    let j = choose|j: int| 0 <= j < i && #[trigger] ids@[j] == c;
                    assert(lt(ids@[j], ids@[i as int]));
                }
            }
            assert(ids@.contains(c));
            assert(set.contains(c));
            assert(m.can_count(c));
            assert(middle.rooms.contains_key(c) == m.rooms.contains_key(c));
            assert(m.rooms.contains_key(c) ==> middle.rooms[c] == m.rooms[c]);
            assert(middle.counter(c) == m.counter(c));
        }
        let (change, needs_reconcile) = registry.hint_leaving(c, user_id);
        if needs_reconcile {
            confirm.push(c);
        }
        changes.push(change);
        proof {
            let prev = done;
            done = done.insert(c);
            if m.rooms.contains_key(c) {
                lemma_settle_one_more(m, prev.intersect(m.rooms.dom()), f, c);
                assert(done.intersect(m.rooms.dom()) =~= prev.intersect(m.rooms.dom()).insert(c));
            } else {
                assert(done.intersect(m.rooms.dom()) =~= prev.intersect(m.rooms.dom()));
            }
            assert forall|d: Uuid| #[trigger] done.contains(d) <==> exists|j: int|
                0 <= j < i + 1 && #[trigger] ids@[j] == d by {
                if done.contains(d) {
                    if d == c {
                        assert(ids@[i as int] == d);
                    } else {
                        assert(prev.contains(d));
                    }
                }
                if exists|j: int| 0 <= j < i + 1 && #[trigger] ids@[j] == d {
                    let j = choose|j: int| 0 <= j < i + 1 && #[trigger] ids@[j] == d;
                    if j < i {
                        assert(prev.contains(d));
                    }
                }
            }
            lemma_change_list_push(some, change);
            assert(ids@.take(i + 1) =~= ids@.take(i as int).push(c));
            assert(change_list(changes@) =~= ids@.take(i + 1).map_values(g));
        }
    }
    proof {
        assert(done =~= set) by {
            assert forall|c: Uuid| done.contains(c) <==> set.contains(c) by {
                assert(ids@.contains(c) <==> set.contains(c));
                if set.contains(c) {
                    let j = choose|j: int| 0 <= j < ids@.len() && ids@[j] == c;
                    assert(ids@[j] == c);
                }
                if done.contains(c) {
                    let j = choose|j: int| 0 <= j < ids@.len() && #[trigger] ids@[j] == c;
                    assert(ids@.contains(c));
                }
            }
        }
        assert(ids@.take(ids@.len() as int) =~= ids@);
        lemma_picked(confirm@, ids@, set, p, id_order());
        assert(change_list(changes@) =~= hinted_out_changes(m, set, user_id));
    }
    (changes, confirm)
}

/// Applies a presence hint. `channel`: the one that it names, where there is
/// one; `is_member`: is the user a member of its community? A client is in one
/// channel at a time: joining one leaves the others. Leaving never takes out a confirmed participant; the
/// channel is confirmed soon instead, and where the client names its own
/// session LiveKit is asked to end it at once.
pub fn on_presence_hint(
    registry: &mut VoiceRegistry,
    joined: &mut HashSet<Uuid>,
    user_id: UserId,
    channel: Option<&Channel>,
    is_member: bool,
    data: &VoicePresenceHint,
) -> (r: PresenceOutcome)
    requires
        old(registry).wf(),
        old(registry)@.can_count_in(old(joined)@.insert(data.channel_id)),
    ensures
        final(registry).wf(),
        final(registry).clock() == old(registry).clock(),
        exists|now: Reading|
            now.is_plausible() && #[trigger] presence_hinted(
                old(registry)@,
                old(joined)@,
                user_id,
                channel,
                is_member,
                *data,
                now,
                final(registry)@,
                final(joined)@,
                r,
            ),
{
    let now: Reading = registry.read_clock();
    on_presence_hint_at(registry, joined, user_id, channel, is_member, data, now)
}

/// `on_presence_hint`, at a given moment.
pub fn on_presence_hint_at(
    registry: &mut VoiceRegistry,
    joined: &mut HashSet<Uuid>,
    user_id: UserId,
    channel: Option<&Channel>,
    is_member: bool,
    data: &VoicePresenceHint,
    now: Reading,
) -> (r: PresenceOutcome)
    requires
        old(registry).wf(),
        old(registry)@.can_count_in(old(joined)@.insert(data.channel_id)),
    ensures
        final(registry).wf(),
        final(registry).clock() == old(registry).clock(),
        presence_hinted(
            old(registry)@,
            old(joined)@,
            user_id,
            channel,
            is_member,
            *data,
            now,
            final(registry)@,
            final(joined)@,
            r,
        ),
{
    let id: ChannelId = data.channel_id;
    let ghost m = registry@;
    let ghost calls = joined@;
    proof {
        assert(calls.insert(id).contains(id));
    }
    let allowed: bool = match channel {
        Some(c) => same_text(c.kind.as_str(), "voice") && (user_id == MUSIC_BOT_ID || is_member),
        None => false,
    };
    if !allowed {
        return PresenceOutcome {
            refused: Some(
                OutboundEnvelope::error("forbidden", "not allowed to join this voice channel", None),
            ),
            changes: Vec::new(),
            reconcile: Vec::new(),
            end_session: false,
        };
    }
    if same_text(data.state.as_str(), "joining") {
        joined.remove(&id);
        let others: Vec<ChannelId> = sorted_members(joined);
        let ghost set = joined@;
        proof {
            assert forall|c: Uuid| #[trigger] set.contains(c) implies m.can_count(c) by {
                assert(calls.insert(id).contains(c));
            }
        }
        let (mut changes, reconcile) = hint_out(registry, &others, user_id, Ghost(set));
        joined.clear();
        joined.insert(id);
        proof {
            assert(set =~= calls.remove(id));
            assert(joined@ =~= set![id]);
            assert(m.can_count(id));
            assert(registry@.counter(id) == m.counter(id));
        }
        let change: RoomChange = registry.hint_joining_at(
            id,
            user_id,
            crate::text::copy_optional(&data.participant_sid),
            user_id == MUSIC_BOT_ID,
            now,
        );
        proof {
            lemma_change_list_push(changes@, change);
        }
        changes.push(change);
        PresenceOutcome { refused: None, changes, reconcile, end_session: false }
    } else if same_text(data.state.as_str(), "leaving") {
        joined.remove(&id);
        let own: bool = match (registry.room(id), &data.participant_sid) {
            (Some(room), Some(informed)) => match room.participant(user_id) {
                Some(row) => is_session(&row.sid, informed.as_str()),
                None => false,
            },
            _ => false,
        };
        proof {
            assert(m.can_count(id));
        }
        let (change, needs_reconcile) = registry.hint_leaving(id, user_id);
        let reconcile: Vec<ChannelId> = if needs_reconcile {
            vec![id]
        } else {
            Vec::new()
        };
        let ghost one = change@;
        let r = PresenceOutcome {
            refused: None,
            changes: vec![change],
            reconcile,
            end_session: needs_reconcile && own,
        };
        proof {
            assert(change_list(r.changes@) =~= seq![one]);
            assert(joined@ =~= calls.remove(id));
            assert(needs_reconcile ==> r.reconcile@ =~= seq![id]);
            assert(!needs_reconcile ==> r.reconcile@ =~= Seq::empty());
        }
        r
    } else {
        PresenceOutcome {
            refused: None,
            changes: Vec::new(),
            reconcile: Vec::new(),
            end_session: false,
        }
    }
}

/// No presence hint takes out, or alters, anyone whom LiveKit confirmed.
pub proof fn law_presence_hint_spares_confirmed(
    m: RegistryModel,
    joined: Set<Uuid>,
    user: Uuid,
    channel: Option<&Channel>,
    is_member: bool,
    data: VoicePresenceHint,
    now: Reading,
    after: RegistryModel,
    joined_after: Set<Uuid>,
    outcome: PresenceOutcome,
    c: Uuid,
    u: Uuid,
)
    requires
        m.valid(),
        m.has_confirmed(c, u),
        presence_hinted(m, joined, user, channel, is_member, data, now, after, joined_after, outcome),
    ensures
        after.has_confirmed(c, u),
        after.rooms[c].participants[u] == m.rooms[c].participants[u],
{
    let others = joined.remove(data.channel_id);
    let out = hinted_out(m, others, user);
    let room = m.rooms[c];
    assert(room.hint_left(c, user).0.participants.dom().contains(u));
    assert(out.has_confirmed(c, u));
    assert(out.rooms[c].participants[u] == room.participants[u]);
    if m.rooms.contains_key(data.channel_id) {
        assert(m.rooms[data.channel_id].hint_left(data.channel_id, user).0.participants.dom().contains(u)
            || data.channel_id != c);
    }
}

/// What is to be done about a track hint.
#[derive(Debug)]
pub enum TrackOutcome {
    /// Nothing, and nobody is told.
    Ignored,
    Changed(RoomChange),
    /// The client is told why not.
    Refused(OutboundEnvelope),
}

/// The source of a track that a client may hint at: a camera, a screen, or
/// the sound of a screen.
pub open spec fn hintable(value: Seq<char>) -> Option<TrackSource> {
    match TrackSource::named(value) {
        Some(TrackSource::Camera) => Some(TrackSource::Camera),
        Some(TrackSource::ScreenShare) => Some(TrackSource::ScreenShare),
        Some(TrackSource::ScreenShareAudio) => Some(TrackSource::ScreenShareAudio),
        _ => None,
    }
}

/// Does the hint name a state?
pub open spec fn is_track_state(s: Seq<char>) -> bool {
    s == "published"@ || s == "unpublished"@
}

/// Applies a track hint. Only who announced itself in the channel is heard,
/// and only the owner takes a track down.
pub fn on_track_hint(
    registry: &mut VoiceRegistry,
    joined: &HashSet<Uuid>,
    user_id: UserId,
    data: VoiceTrackHint,
) -> (r: TrackOutcome)
    requires
        old(registry).wf(),
        old(registry)@.can_count(data.channel_id),
    ensures
        final(registry).wf(),
        final(registry).clock() == old(registry).clock(),
        if hintable(data.source@) is None || !is_track_state(data.state@) || !joined@.contains(
            data.channel_id,
        ) {
            r is Ignored && final(registry)@ == old(registry)@
        } else {
            match old(registry)@.track_hinted(
                data.channel_id,
                user_id,
                data.track_sid@,
                hintable(data.source@)->0,
                data.state@ == "published"@,
            ) {
                Ok(step) => r matches TrackOutcome::Changed(change) && (final(registry)@, change@)
                    == step,
                Err(HintError::NotTrackOwner) => {
                    &&& r matches TrackOutcome::Refused(e) && e.is_error(
                        "forbidden"@,
                        "you do not own this track"@,
                        None,
                    )
                    &&& final(registry)@ == old(registry)@
                },
                Err(_) => r is Ignored && final(registry)@ == old(registry)@,
            }
        },
{
    let source: TrackSource = match TrackSource::parse(data.source.as_str()) {
        Some(TrackSource::Camera) => TrackSource::Camera,
        Some(TrackSource::ScreenShare) => TrackSource::ScreenShare,
        Some(TrackSource::ScreenShareAudio) => TrackSource::ScreenShareAudio,
        _ => {
            return TrackOutcome::Ignored;
        },
    };
    let published: bool = same_text(data.state.as_str(), "published");
    if !published && !same_text(data.state.as_str(), "unpublished") {
        return TrackOutcome::Ignored;
    }
    if !joined.contains(&data.channel_id) {
        return TrackOutcome::Ignored;
    }
    match registry.hint_track(data.channel_id, user_id, data.track_sid, source, published) {
        Ok(change) => TrackOutcome::Changed(change),
        Err(HintError::NotTrackOwner) => TrackOutcome::Refused(
            OutboundEnvelope::error("forbidden", "you do not own this track", None),
        ),
        Err(_) => TrackOutcome::Ignored,
    }
}

/// The channels that a request is about, or the refusal of one request too
/// many. Of the channels that it names only the first are taken.
pub fn on_room_request(allowed: bool, data: VoiceRoomRequest) -> (r: Result<Vec<Uuid>, OutboundEnvelope>)
    ensures
        match r {
            Ok(only) => allowed && only@ == if data.channel_ids@.len() <= MAX_REQUESTED_CHANNELS {
                data.channel_ids@
            } else {
                data.channel_ids@.take(MAX_REQUESTED_CHANNELS as int)
            },
            Err(m) => !allowed && m.is_error(
                "rate_limited"@,
                "muitas solicitações de estado"@,
                None,
            ),
        },
{
    if !allowed {
        return Err(
            OutboundEnvelope::error("rate_limited", "muitas solicitações de estado", None),
        );
    }
    let mut only: Vec<Uuid> = data.channel_ids;
    only.truncate(MAX_REQUESTED_CHANNELS);
    assert(only@ =~= if data.channel_ids@.len() <= MAX_REQUESTED_CHANNELS {
        data.channel_ids@
    } else {
        data.channel_ids@.take(MAX_REQUESTED_CHANNELS as int)
    });
    Ok(only)
}

/// The active channels that a snapshot is about: those of `only`, or all of
/// them where it is empty. In order.
pub fn wanted_channels(registry: &VoiceRegistry, only: &Vec<Uuid>) -> (r: Vec<Uuid>)
    ensures
        r@ == sorted_ids(
            registry@.rooms.dom().filter(|c: Uuid| !registry@.rooms[c].deserted()).filter(
                |c: Uuid| only@.len() == 0 || only@.contains(c),
            ),
        ),
{
    let active: Vec<Uuid> = registry.active_channel_ids();
    let ghost set = registry@.rooms.dom().filter(|c: Uuid| !registry@.rooms[c].deserted());
    let ghost p = |c: Uuid| only@.len() == 0 || only@.contains(c);
    let mut out: Vec<Uuid> = Vec::new();
    for i in 0..active.len()
        invariant
            lists(active@, set, id_order()),
            p == (|c: Uuid| only@.len() == 0 || only@.contains(c)),
            picks(out@, active@, i as int, p, id_order()),
    {
        proof {
            lemma_pick(out@, active@, i as int, p, id_order());
        }
        if only.len() == 0 || has_id(only, active[i]) {
            out.push(active[i]);
        }
    }
    proof {
        lemma_picked(out@, active@, set, p, id_order());
    }
    out
}

/// What a list of rooms shows.
pub open spec fn rooms_shown(s: Seq<VoiceRoomDto>) -> Seq<RoomShown> {
    Seq::new(s.len(), |i: int| s[i]@)
}

/// Is someone in the channel?
pub open spec fn is_active(m: RegistryModel, c: Uuid) -> bool {
    m.rooms.contains_key(c) && !m.rooms[c].deserted()
}

/// Is a connection told of rooms, or only of rosters? One that is not known
/// any more gets rosters.
pub fn takes_rooms(protocol_version: Option<u8>) -> (r: bool)
    ensures
        r <==> (protocol_version matches Some(v) && v >= ROOM_PROTOCOL),
{
    match protocol_version {
        Some(v) => v >= ROOM_PROTOCOL,
        None => false,
    }
}

/// The snapshot of the rooms of `visible`, in its order, for a client of the
/// second dialect. Rooms with nobody in them are left out. `only`: what the
/// client asked for; where that was everything, the snapshot is complete.
pub fn room_state(registry: &VoiceRegistry, visible: &Vec<Uuid>, only: Vec<Uuid>) -> (r: OutboundEnvelope)
    requires
        registry.indexed(),
    ensures
        r.data is VoiceRoomState,
        r.is_message("voice.room.state"@, r.data),
        ({
            let state = r.data->VoiceRoomState_0;
            &&& state.full
            &&& state.channel_ids == if only@.len() == 0 {
                None::<Vec<Uuid>>
            } else {
                Some(only)
            }
            &&& rooms_shown(state.rooms@) == visible@.filter(
                |c: Uuid| is_active(registry@, c),
            ).map_values(|c: Uuid| registry@.rooms[c].shown(c))
        }),
{
    let ghost p = |c: Uuid| is_active(registry@, c);
    let ghost g = |c: Uuid| registry@.rooms[c].shown(c);
    let mut rooms: Vec<VoiceRoomDto> = Vec::new();
    proof {
        reveal(Seq::filter);
        assert(rooms_shown(rooms@) =~= visible@.take(0).filter(p).map_values(g));
    }
    for i in 0..visible.len()
        invariant
            registry.indexed(),
            p == (|c: Uuid| is_active(registry@, c)),
            g == (|c: Uuid| registry@.rooms[c].shown(c)),
            rooms_shown(rooms@) == visible@.take(i as int).filter(p).map_values(g),
    {
        let c: Uuid = visible[i];
        let ghost before = rooms@;
        proof {
            reveal(Seq::filter);
            let some = visible@.take(i as int);
            let more = visible@.take(i + 1);
            assert(more.drop_last() =~= some);
            assert(more.last() == c);
            if p(c) {
                assert(more.filter(p) =~= some.filter(p).push(c));
                assert(more.filter(p).map_values(g) =~= some.filter(p).map_values(g).push(g(c)));
            } else {
                assert(more.filter(p) =~= some.filter(p));
            }
        }
        if let Some(room) = registry.room(c) {
            if !room.is_deserted() {
                let dto: VoiceRoomDto = room.to_dto(c);
                let ghost shown = dto@;
                rooms.push(dto);
                assert(rooms_shown(rooms@) =~= rooms_shown(before).push(shown));
            }
        }
    }
    assert(visible@.take(visible@.len() as int) =~= visible@);
    let channel_ids: Option<Vec<Uuid>> = if only.len() == 0 {
        None
    } else {
        Some(only)
    };
    OutboundEnvelope::new(
        "voice.room.state",
        Payload::VoiceRoomState(VoiceRoomState { full: true, channel_ids, rooms }),
    )
}

/// The snapshot of rosters for a client of the first dialect. Rosters with
/// nobody on them are left out.
pub fn rooms_snapshot(rosters: Vec<VoiceRoster>) -> (r: OutboundEnvelope)
    ensures
        r.data is VoiceRooms,
        r.is_message("voice.rooms"@, r.data),
        r.data->VoiceRooms_0.rooms@ == rosters@.filter(
            |x: VoiceRoster| x.participants@.len() > 0,
        ),
{
    let ghost p = |x: VoiceRoster| x.participants@.len() > 0;
    let ghost all = rosters@;
    let mut left: Vec<VoiceRoster> = rosters;
    let mut rooms: Vec<VoiceRoster> = Vec::new();
    proof {
        reveal(Seq::filter);
        assert(all.take(0).filter(p) =~= Seq::empty());
        assert(all.skip(0) =~= all);
    }
    let ghost mut n: int = 0;
    while left.len() > 0
        invariant
            p == (|x: VoiceRoster| x.participants@.len() > 0),
            0 <= n <= all.len(),
            left@ == all.skip(n),
            rooms@ == all.take(n).filter(p),
        decreases left@.len(),
    {
        let roster: VoiceRoster = left.remove(0);
        proof {
            reveal(Seq::filter);
            assert(all.take(n + 1).drop_last() =~= all.take(n));
            assert(all.take(n + 1).last() == roster);
            assert(left@ =~= all.skip(n + 1));
            n = n + 1;
        }
        if roster.participants.len() > 0 {
            rooms.push(roster);
        }
    }
    assert(all.take(n) =~= all);
    OutboundEnvelope::new("voice.rooms", Payload::VoiceRooms(VoiceRoomsSnapshot { rooms }))
}

/// What is to be done about a change of mute or deafen.
#[derive(Debug)]
pub struct CallStateOutcome {
    /// Who is in the channel and hears of it.
    pub recipients: Vec<UserId>,
    /// What they hear.
    pub message: OutboundEnvelope,
    /// What changed in the room.
    pub change: RoomChange,
}

/// Applies a change of mute or deafen: the one thing that a client decides.
/// The others hear the state that came of it, even where nothing changed.
pub fn on_call_state_update(registry: &mut VoiceRegistry, user_id: UserId, data: &CallStateUpdate) -> (r: Result<
    CallStateOutcome,
    OutboundEnvelope,
>)
    requires
        old(registry).wf(),
        old(registry)@.can_count(data.channel_id),
    ensures
        final(registry).wf(),
        final(registry).clock() == old(registry).clock(),
        match old(registry)@.audio_set(data.channel_id, user_id, data.muted, data.deafened) {
            Ok(step) => r matches Ok(o) && {
                let room = final(registry)@.rooms[data.channel_id];
                &&& (final(registry)@, o.change@) == step
                &&& o.recipients@ == sorted_ids(room.participants.dom())
                &&& o.message.is_message(
                    "call.state.update"@,
                    Payload::CallStateUpdate(
                        CallStateUpdateEvent {
                            channel_id: data.channel_id,
                            user_id,
                            muted: room.participants[user_id].muted,
                            deafened: room.participants[user_id].deafened,
                        },
                    ),
                )
            },
            Err(_) => {
                &&& r matches Err(m) && m.is_error(
                    "forbidden"@,
                    "join the call before changing participant state"@,
                    None,
                )
                &&& final(registry)@ == old(registry)@
            },
        },
{
    match registry.set_audio_state(data.channel_id, user_id, data.muted, data.deafened) {
        Ok(change) => {
            let (muted, deafened): (bool, bool) = match registry.room(data.channel_id) {
                Some(room) => match room.participant(user_id) {
                    Some(row) => (row.muted, row.deafened),
                    None => (false, false),
                },
                None => (false, false),
            };
            let recipients: Vec<UserId> = registry.participant_ids(data.channel_id);
            proof {
                let m = old(registry)@;
                let row = m.rooms[data.channel_id].participants[user_id];
                assert(row.user_id == user_id);
            }
            Ok(
                CallStateOutcome {
                    recipients,
                    message: OutboundEnvelope::new(
                        "call.state.update",
                        Payload::CallStateUpdate(
                            CallStateUpdateEvent {
                                channel_id: data.channel_id,
                                user_id,
                                muted,
                                deafened,
                            },
                        ),
                    ),
                    change,
                },
            )
        },
        Err(_) => Err(
            OutboundEnvelope::error(
                "forbidden",
                "join the call before changing participant state",
                None,
            ),
        ),
    }
}

/// Is `user` in `channel`, under a session that LiveKit confirmed?
pub open spec fn confirmed_in(m: RegistryModel, channel: Uuid, user: Uuid) -> bool {
    &&& m.rooms.contains_key(channel)
    &&& m.rooms[channel].participants.contains_key(user)
    &&& m.rooms[channel].participants[user].sid is Some
}

/// Is `user` in `channel`, announced but not confirmed?
pub open spec fn announced_in(m: RegistryModel, channel: Uuid, user: Uuid) -> bool {
    &&& m.rooms.contains_key(channel)
    &&& m.rooms[channel].participants.contains_key(user)
    &&& m.rooms[channel].participants[user].sid is None
}

/// A presence hint is refused unless it names a voice channel of a community
/// that the user is a member of; the music bot needs no membership. A refused
/// one does nothing.
pub proof fn law_hint_admitted(
    m: RegistryModel,
    joined: Set<Uuid>,
    user: Uuid,
    channel: Option<&Channel>,
    is_member: bool,
    data: VoicePresenceHint,
    now: Reading,
    after: RegistryModel,
    joined_after: Set<Uuid>,
    outcome: PresenceOutcome,
)
    requires
        presence_hinted(m, joined, user, channel, is_member, data, now, after, joined_after, outcome),
    ensures
        ({
            let may = channel is Some && channel->0.kind@ == "voice"@ && (is_member || user == 1);
            &&& outcome.refused is Some <==> !may
            &&& !may ==> {
                let e = outcome.refused->0;
                &&& e.v == 1 && e.op@ == "error"@ && e.data is Error
                &&& e.data->Error_0.code@ == "forbidden"@
                &&& e.data->Error_0.message@ == "not allowed to join this voice channel"@
                &&& e.data->Error_0.in_reply_to is None
                &&& after == m
                &&& joined_after == joined
                &&& outcome.changes@.len() == 0
                &&& outcome.reconcile@.len() == 0
                &&& !outcome.end_session
            }
        }),
{
}

/// To join a channel: the connection is then in that channel alone. Out of
/// every other one that it announced the user is hinted: an announced row goes,
/// a confirmed one stays and its channel is to be confirmed soon. In the
/// channel itself the user is hinted in, as the music bot only if it is. All
/// that is reported, the channels that were left first, in order, then the one
/// that is joined. No session is ended.
pub proof fn law_joining_hint(
    m: RegistryModel,
    joined: Set<Uuid>,
    user: Uuid,
    channel: Option<&Channel>,
    is_member: bool,
    data: VoicePresenceHint,
    now: Reading,
    after: RegistryModel,
    joined_after: Set<Uuid>,
    outcome: PresenceOutcome,
    c: Uuid,
)
    requires
        m.valid(),
        joined.finite(),
        presence_hinted(m, joined, user, channel, is_member, data, now, after, joined_after, outcome),
        outcome.refused is None,
        data.state@ == "joining"@,
        c != data.channel_id,
    ensures
        ({
            let id = data.channel_id;
            let own = m.opened(id).hint_joined(
                id,
                user,
                if data.participant_sid is Some {
                    Some(data.participant_sid->0@)
                } else {
                    None
                },
                user == 1,
                now,
            );
            let others = change_list(outcome.changes@).drop_last();
            let left = joined.contains(c) && announced_in(m, c, user);
            &&& forall|d: Uuid| joined_after.contains(d) <==> d == id
            &&& after.rooms.contains_key(id) && after.rooms[id] == own.0
            &&& change_list(outcome.changes@).len() > 0 && change_list(outcome.changes@).last() == own.1
            &&& outcome.reconcile@.contains(c) <==> joined.contains(c) && confirmed_in(m, c, user)
            &&& !outcome.reconcile@.contains(id)
            &&& ids_rise(outcome.reconcile@)
            &&& !outcome.end_session
            &&& !left ==> {
                &&& after.rooms.contains_key(c) == m.rooms.contains_key(c)
                &&& after.rooms.contains_key(c) ==> after.rooms[c] == m.rooms[c]
            }
            &&& left ==> {
                &&& !(after.rooms.contains_key(c) && after.rooms[c].participants.contains_key(user))
                &&& after.rooms.contains_key(c) ==> after.rooms[c] == m.rooms[c].hint_left(c, user).0
            }
            &&& joined.contains(c) ==> exists|i: int|
                0 <= i < others.len() && (#[trigger] others[i]) == m.hint_left(c, user).1
            &&& forall|i: int| 0 <= i < others.len() ==> joined.contains((#[trigger] others[i]).channel_id)
            &&& forall|i: int, j: int|
                0 <= i < j < others.len() ==> (#[trigger] others[i]).channel_id < (
                #[trigger] others[j]).channel_id
        }),
{
    let id = data.channel_id;
    let rest = joined.remove(id);
    let ids = sorted_ids(rest);
    law_ids_listed(rest, c);
    law_ids_listed(rest, id);
    let sure = rest.filter(|d: Uuid| m.has_confirmed(d, user));
    vstd::set_lib::lemma_set_subset_finite(rest, sure);
    law_ids_listed(sure, c);
    law_ids_listed(sure, id);
    let middle = hinted_out(m, rest, user);
    assert(middle.opened(id) == m.opened(id));
    let others = hinted_out_changes(m, rest, user);
    assert(change_list(outcome.changes@).drop_last() =~= others);
    if joined.contains(c) {
        let i = choose|i: int| 0 <= i < ids.len() && ids[i] == c;
        assert(others[i] == m.hint_left(c, user).1);
    }
    assert forall|i: int| 0 <= i < others.len() implies (#[trigger] others[i]).channel_id == ids[i]
        && joined.contains(ids[i]) by {
        assert(ids.contains(ids[i]));
        law_ids_listed(rest, ids[i]);
    }
    if m.rooms.contains_key(c) {
        let o = m.rooms[c].hint_left(c, user);
        law_hint_leave(m.rooms[c], c, user, Seq::empty());
        assert(after.rooms.contains_key(c) ==> middle.rooms.contains_key(c));
    }
}

/// To leave a channel: an announced row goes; a confirmed one stays, its channel
/// is to be confirmed soon, and where the client names the very session that
/// LiveKit confirmed, LiveKit is to be asked to end it. The connection is then
/// not in that channel any more, and no other channel is touched.
pub proof fn law_leaving_hint(
    m: RegistryModel,
    joined: Set<Uuid>,
    user: Uuid,
    channel: Option<&Channel>,
    is_member: bool,
    data: VoicePresenceHint,
    now: Reading,
    after: RegistryModel,
    joined_after: Set<Uuid>,
    outcome: PresenceOutcome,
    c: Uuid,
)
    requires
        m.valid(),
        presence_hinted(m, joined, user, channel, is_member, data, now, after, joined_after, outcome),
        outcome.refused is None,
        data.state@ == "leaving"@,
    ensures
        ({
            let id = data.channel_id;
            let sure = confirmed_in(m, id, user);
            &&& joined_after.contains(c) <==> joined.contains(c) && c != id
            &&& change_list(outcome.changes@).len() == 1
            &&& change_list(outcome.changes@)[0] == m.hint_left(id, user).1
            &&& outcome.reconcile@ == if sure {
                seq![id]
            } else {
                Seq::empty()
            }
            &&& outcome.end_session <==> sure && data.participant_sid is Some
                && m.rooms[id].participants[user].sid == Some(data.participant_sid->0@)
            &&& after.rooms.contains_key(id) && after.rooms[id].participants.contains_key(user) <==> sure
            &&& c != id ==> {
                &&& after.rooms.contains_key(c) == m.rooms.contains_key(c)
                &&& after.rooms.contains_key(c) ==> after.rooms[c] == m.rooms[c]
            }
        }),
{
    reveal_strlit("joining");
    reveal_strlit("leaving");
    assert("joining"@[0] == 'j');
    assert("leaving"@[0] == 'l');
    let id = data.channel_id;
    if m.rooms.contains_key(id) {
        law_hint_leave(m.rooms[id], id, user, Seq::empty());
    }
}

/// A hint that says neither that it joins nor that it leaves does nothing.
pub proof fn law_other_hint(
    m: RegistryModel,
    joined: Set<Uuid>,
    user: Uuid,
    channel: Option<&Channel>,
    is_member: bool,
    data: VoicePresenceHint,
    now: Reading,
    after: RegistryModel,
    joined_after: Set<Uuid>,
    outcome: PresenceOutcome,
)
    requires
        presence_hinted(m, joined, user, channel, is_member, data, now, after, joined_after, outcome),
        data.state@ != "joining"@,
        data.state@ != "leaving"@,
    ensures
        after == m,
        joined_after == joined,
        outcome.changes@.len() == 0,
        outcome.reconcile@.len() == 0,
        !outcome.end_session,
{
}

/// A client may hint at a camera, a screen, or the sound of a screen, by their
/// names in any case, and at nothing else: not at a microphone, nor at music.
pub proof fn law_hintable(value: Seq<char>)
    ensures
        hintable(value) == Some(TrackSource::Camera) <==> ascii_lower(value) == "camera"@,
        hintable(value) == Some(TrackSource::ScreenShare) <==> ascii_lower(value) == "screen_share"@,
        hintable(value) == Some(TrackSource::ScreenShareAudio) <==> ascii_lower(value)
            == "screen_share_audio"@,
        hintable(value) != Some(TrackSource::Microphone),
        hintable(value) != Some(TrackSource::Music),
        is_track_state(value) <==> value == "published"@ || value == "unpublished"@,
{
    law_source_names(value);
}

/// A list of rooms shows each of them, in order, and a channel is active if
/// someone is in it.
pub proof fn law_rooms_listed(s: Seq<VoiceRoomDto>, i: int, m: RegistryModel, c: Uuid)
    ensures
        rooms_shown(s).len() == s.len(),
        0 <= i < s.len() ==> rooms_shown(s)[i] == s[i]@,
        is_active(m, c) <==> m.rooms.contains_key(c) && exists|u: Uuid|
            m.rooms[c].participants.contains_key(u),
{
    let room = m.rooms[c];
    if m.rooms.contains_key(c) && !room.deserted() {
        let u = choose|u: Uuid| room.participants.dom().contains(u);
        assert(room.participants.contains_key(u));
    }
    if exists|u: Uuid| room.participants.contains_key(u) {
        let u = choose|u: Uuid| room.participants.contains_key(u);
        assert(room.participants.dom().contains(u));
    }
}

/// Is `m` the error `code` with the text `text`, in answer to nothing?
pub open spec fn plain_error(m: OutboundEnvelope, code: Seq<char>, text: Seq<char>) -> bool {
    &&& m.v == 1
    &&& m.op@ == "error"@
    &&& m.data matches Payload::Error(e) && e.code@ == code && e.message@ == text && e.in_reply_to is None
}

/// A hint about a track is heard only of a source that may be hinted at, in a
/// state that there is, and from a connection that announced itself in the
/// channel. Then a publication puts the track in as the user's own, of that
/// source; who takes down a track of someone else is told that it is not
/// theirs; and any other refusal is silent.
pub proof fn law_track_hint_heard(
    registry: &mut VoiceRegistry,
    joined: &HashSet<Uuid>,
    user_id: UserId,
    data: VoiceTrackHint,
    r: TrackOutcome,
)
    requires
        call_ensures(on_track_hint, (registry, joined, user_id, data), r),
    ensures
        ({
            let (m, after) = (old(registry)@, final(registry)@);
            let c = data.channel_id;
            let sid = data.track_sid@;
            let source = ascii_lower(data.source@);
            let heard = joined@.contains(c) && (source == "camera"@ || source == "screen_share"@ || source
                == "screen_share_audio"@) && (data.state@ == "published"@ || data.state@ == "unpublished"@);
            let here = m.rooms.contains_key(c) && m.rooms[c].participants.contains_key(user_id);
            let there = m.rooms.contains_key(c) && m.rooms[c].tracks.contains_key(sid);
            let t = after.rooms[c].tracks[sid];
            &&& !heard ==> r is Ignored && after == m
            &&& heard && data.state@ == "published"@ ==> {
                &&& !here ==> r is Ignored && after == m
                &&& here ==> r is Changed
                &&& here && !there ==> {
                    &&& after.rooms[c].tracks == m.rooms[c].tracks.insert(sid, t)
                    &&& t.owner == user_id
                    &&& !t.muted
                    &&& source == "camera"@ ==> t.source == TrackSource::Camera
                    &&& source == "screen_share"@ ==> t.source == TrackSource::ScreenShare
                    &&& source == "screen_share_audio"@ ==> t.source == TrackSource::ScreenShareAudio
                }
            }
            &&& heard && data.state@ == "unpublished"@ ==> {
                &&& !there ==> r is Ignored && after == m
                &&& there && m.rooms[c].tracks[sid].owner != user_id ==> {
                    &&& r is Refused
                    &&& plain_error(r->Refused_0, "forbidden"@, "you do not own this track"@)
                    &&& after == m
                }
                &&& there && m.rooms[c].tracks[sid].owner == user_id ==> {
                    &&& r is Changed
                    &&& after.rooms[c].tracks == m.rooms[c].tracks.remove(sid)
                }
            }
        }),
{
    reveal_strlit("published");
    reveal_strlit("unpublished");
    assert("published"@.len() == 9);
    assert("unpublished"@.len() == 11);
    let m = old(registry)@;
    let c = data.channel_id;
    law_hintable(data.source@);
    if hintable(data.source@) is Some {
        law_claim_steps(m, c, user_id, data.track_sid@, hintable(data.source@)->0, None, None);
        if m.rooms.contains_key(c) {
            law_hint_publish(m.rooms[c], c, user_id, data.track_sid@, hintable(data.source@)->0);
            law_hint_unpublish(m.rooms[c], c, user_id, data.track_sid@);
        }
    }
}

/// A request for rooms that is allowed is about the channels that it names, the
/// first hundred of them; any other one is refused.
pub proof fn law_room_request_read(
    allowed: bool,
    data: VoiceRoomRequest,
    r: Result<Vec<Uuid>, OutboundEnvelope>,
    i: int,
)
    requires
        call_ensures(on_room_request, (allowed, data), r),
    ensures
        r is Ok <==> allowed,
        allowed && data.channel_ids@.len() <= 100 ==> r->Ok_0@ == data.channel_ids@,
        allowed && data.channel_ids@.len() > 100 ==> r->Ok_0@.len() == 100,
        allowed && 0 <= i < r->Ok_0@.len() ==> r->Ok_0@[i] == data.channel_ids@[i],
        !allowed ==> plain_error(r->Err_0, "rate_limited"@, "muitas solicitações de estado"@),
{
}

/// A snapshot is about the channels with someone in them, those that were asked
/// for, or all of them where none was asked for, in order.
pub proof fn law_wanted(registry: &VoiceRegistry, only: &Vec<Uuid>, r: Vec<Uuid>, c: Uuid)
    requires
        registry.wf(),
        call_ensures(wanted_channels, (registry, only), r),
    ensures
        r@.contains(c) <==> {
            &&& registry@.rooms.contains_key(c)
            &&& exists|u: Uuid| registry@.rooms[c].participants.contains_key(u)
            &&& only@.len() == 0 || only@.contains(c)
        },
        ids_rise(r@),
{
    let m = registry@;
    let busy = m.rooms.dom().filter(|c: Uuid| !m.rooms[c].deserted());
    let asked = busy.filter(|c: Uuid| only@.len() == 0 || only@.contains(c));
    vstd::set_lib::lemma_set_subset_finite(m.rooms.dom(), asked);
    law_ids_listed(asked, c);
    law_rooms_listed(Seq::empty(), 0, m, c);
}

/// A connection is told of rooms in the second dialect and in later ones.
pub proof fn law_rooms_taken(protocol_version: Option<u8>, r: bool)
    requires
        call_ensures(takes_rooms, (protocol_version,), r),
    ensures
        r <==> protocol_version is Some && protocol_version->0 >= 2,
{
}

/// A snapshot for the second dialect is complete where nothing was asked for,
/// and says what was asked for where something was; it shows the rooms of the
/// visible channels that have someone in them, and no others, as they are.
pub proof fn law_snapshot_told(
    registry: &VoiceRegistry,
    visible: &Vec<Uuid>,
    only: Vec<Uuid>,
    r: OutboundEnvelope,
    c: Uuid,
)
    requires
        call_ensures(room_state, (registry, visible, only), r),
    ensures
        ({
            let m = registry@;
            let state = r.data->VoiceRoomState_0;
            let shown = rooms_shown(state.rooms@);
            let live = m.rooms.contains_key(c) && exists|u: Uuid| m.rooms[c].participants.contains_key(u);
            &&& r.v == 1 && r.op@ == "voice.room.state"@ && r.data is VoiceRoomState
            &&& state.full
            &&& only@.len() == 0 ==> state.channel_ids is None
            &&& only@.len() > 0 ==> state.channel_ids == Some(only)
            &&& shown.len() <= visible@.len()
            &&& visible@.contains(c) && live <==> exists|i: int|
                0 <= i < shown.len() && (#[trigger] shown[i]).channel_id == c
            &&& forall|i: int|
                0 <= i < shown.len() ==> (#[trigger] shown[i]).version
                    == m.rooms[shown[i].channel_id].version && shown[i].participants.len()
                    == m.rooms[shown[i].channel_id].shown(shown[i].channel_id).participants.len()
        }),
{
    let m = registry@;
    let p = |c: Uuid| is_active(m, c);
    let picked = visible@.filter(p);
    let shown = rooms_shown(r.data->VoiceRoomState_0.rooms@);
    law_rooms_listed(Seq::empty(), 0, m, c);
    assert(shown == picked.map_values(|c: Uuid| m.rooms[c].shown(c)));
    assert forall|i: int| 0 <= i < shown.len() implies (#[trigger] shown[i]).channel_id == picked[i]
        && shown[i] == m.rooms[picked[i]].shown(picked[i]) by {}
    visible@.lemma_filter_len(p);
    lemma_picked_out(visible@, p, c);
    if picked.contains(c) {
        let k = choose|k: int| 0 <= k < picked.len() && picked[k] == c;
        assert(shown[k].channel_id == c);
    }
    if exists|i: int| 0 <= i < shown.len() && (#[trigger] shown[i]).channel_id == c {
        let i = choose|i: int| 0 <= i < shown.len() && (#[trigger] shown[i]).channel_id == c;
        assert(picked[i] == c);
        assert(picked.contains(c));
    }
}

/// What is picked out of a list are the items that satisfy `p`.
proof fn lemma_picked_out(s: Seq<Uuid>, p: spec_fn(Uuid) -> bool, c: Uuid)
    ensures
        s.filter(p).contains(c) <==> s.contains(c) && p(c),
    decreases s.len(),
{
    reveal(Seq::filter);
    if s.len() > 0 {
        let some = s.drop_last();
        lemma_picked_out(some, p, c);
        assert(s =~= some.push(s.last()));
        lemma_push_contains(some, s.last(), c);
        lemma_push_contains(some.filter(p), s.last(), c);
    }
}

/// A snapshot for the first dialect has the rosters with someone on them, and no
/// others.
pub proof fn law_rosters_told(rosters: Vec<VoiceRoster>, r: OutboundEnvelope)
    requires
        call_ensures(rooms_snapshot, (rosters,), r),
    ensures
        r.v == 1,
        r.op@ == "voice.rooms"@,
        r.data is VoiceRooms,
        r.data->VoiceRooms_0.rooms@ == rosters@.filter(
            |x: VoiceRoster| x.participants@.len() > 0,
        ),
{
}

/// Who is in a channel is muted and deafened as it asks, and everyone there
/// hears, in order, what it is now, whether that is news or not. Who is not
/// there is refused.
pub proof fn law_call_state_told(
    registry: &mut VoiceRegistry,
    user_id: UserId,
    data: &CallStateUpdate,
    r: Result<CallStateOutcome, OutboundEnvelope>,
    u: Uuid,
)
    requires
        old(registry).wf(),
        call_ensures(on_call_state_update, (registry, user_id, data), r),
    ensures
        ({
            let (m, after) = (old(registry)@, final(registry)@);
            let c = data.channel_id;
            let here = m.rooms.contains_key(c) && m.rooms[c].participants.contains_key(user_id);
            let was = m.rooms[c].participants[user_id];
            let row = after.rooms[c].participants[user_id];
            &&& r is Ok <==> here
            &&& !here ==> after == m && plain_error(
                r->Err_0,
                "forbidden"@,
                "join the call before changing participant state"@,
            )
            &&& here ==> {
                let o = r->Ok_0;
                let told = o.message.data->CallStateUpdate_0;
                &&& after.rooms[c].participants == m.rooms[c].participants.insert(user_id, row)
                &&& row.muted == if data.muted is Some {
                    data.muted->0
                } else {
                    was.muted
                }
                &&& row.deafened == if data.deafened is Some {
                    data.deafened->0
                } else {
                    was.deafened
                }
                &&& o.message.v == 1 && o.message.op@ == "call.state.update"@
                &&& o.message.data is CallStateUpdate
                &&& told.channel_id == c
                &&& told.user_id == user_id
                &&& told.muted == row.muted
                &&& told.deafened == row.deafened
                &&& o.recipients@.contains(u) <==> m.rooms[c].participants.contains_key(u)
                &&& ids_rise(o.recipients@)
            }
        }),
{
    let m = old(registry)@;
    let c = data.channel_id;
    law_claim_steps(m, c, user_id, Seq::empty(), TrackSource::Music, data.muted, data.deafened);
    if m.rooms.contains_key(c) {
        law_set_audio(m.rooms[c], c, user_id, data.muted, data.deafened);
        if m.rooms[c].participants.contains_key(user_id) {
            let room = final(registry)@.rooms[c];
            assert(room.participants.dom() =~= m.rooms[c].participants.dom());
            law_ids_listed(room.participants.dom(), u);
        }
    }
}

/// Who may join a voice channel, and says that it does, is in it, and its
/// connection is in no other; who may not is refused, and then nothing changes.
pub proof fn law_presence_hint_done(
    registry: &mut VoiceRegistry,
    joined: &mut HashSet<Uuid>,
    user_id: UserId,
    channel: Option<&Channel>,
    is_member: bool,
    data: &VoicePresenceHint,
    r: PresenceOutcome,
    c: Uuid,
)
    requires
        old(registry).wf(),
        call_ensures(
            on_presence_hint,
            (registry, joined, user_id, channel, is_member, data),
            r,
        ),
    ensures
        r.refused is None <==> channel is Some && channel->0.kind@ == "voice"@ && (is_member || user_id == 1),
        r.refused is Some ==> final(registry)@ == old(registry)@ && final(joined)@ == old(joined)@,
        r.refused is None && data.state@ == "joining"@ ==> {
            &&& final(joined)@.contains(c) <==> c == data.channel_id
            &&& final(registry)@.rooms.contains_key(data.channel_id)
            &&& final(registry)@.rooms[data.channel_id].participants.contains_key(user_id)
            &&& !r.end_session
        },
        r.refused is None && data.state@ == "leaving"@ ==> {
            &&& final(joined)@.contains(c) <==> old(joined)@.contains(c) && c != data.channel_id
            &&& final(registry)@.rooms.contains_key(data.channel_id)
                && final(registry)@.rooms[data.channel_id].participants.contains_key(user_id)
                ==> confirmed_in(old(registry)@, data.channel_id, user_id)
        },
        exists|now: Reading|
            now.is_plausible() && #[trigger] presence_hinted(
                old(registry)@,
                old(joined)@,
                user_id,
                channel,
                is_member,
                *data,
                now,
                final(registry)@,
                final(joined)@,
                r,
            ),
{
    let (m, after) = (old(registry)@, final(registry)@);
    let (calls, calls_after) = (old(joined)@, final(joined)@);
    let now = choose|now: Reading|
        now.is_plausible() && #[trigger] presence_hinted(
            m,
            calls,
            user_id,
            channel,
            is_member,
            *data,
            now,
            after,
            calls_after,
            r,
        );
    law_hint_admitted(m, calls, user_id, channel, is_member, *data, now, after, calls_after, r);
    if r.refused is None && data.state@ == "leaving"@ {
        law_leaving_hint(m, calls, user_id, channel, is_member, *data, now, after, calls_after, r, c);
    }
    if r.refused is None && data.state@ == "joining"@ {
        let id = data.channel_id;
        let middle = hinted_out(m, calls.remove(id), user_id);
        assert(middle.opened(id) == m.opened(id));
        lemma_opened_valid(m, id);
        law_hint_join(
            m.opened(id),
            id,
            user_id,
            optional_text(data.participant_sid),
            user_id == MUSIC_BOT_ID,
            now,
        );
    }
}

/// A channel that a client says it left is confirmed two seconds later, and a
/// snapshot does not confirm anew what was confirmed in the last five.
pub proof fn law_voice_delays()
    ensures
        LEAVE_RECONCILE_MS == 2 * 1000,
        SNAPSHOT_RECONCILE_MS == 5 * 1000,
{
}

} // verus!
