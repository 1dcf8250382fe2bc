//! What holds of the registry across operations.

use vstd::prelude::*;

use crate::clock::Reading;
use crate::ident::{law_uuid_text_injective, uuid_text, Uuid, MUSIC_BOT_ID};
use crate::listing::{
    id_order, lemma_listing_exists, lemma_text_order, sorted_ids, sorted_texts, text_order,
};
use crate::text::has_prefix;
use crate::voice::delta::{law_reconciled_told, put_all, put_all_tracks};
use crate::voice::model::{
    by_sid, live_rows, live_users, music_sid, ChangeModel, LiveParticipant, RegistryModel,
    RoomModel, Seating, Step,
};
use crate::voice::reconcile::lemma_without_users_valid;
use crate::voice::types::{ChangeReason, HintError, TrackSource, SEEN_EVENTS_CAP};
use crate::voice::validity::{lemma_by_sid_row, lemma_live_users_last, lemma_take_in_all};

verus! {

/// Is `user` in `channel`?
pub open spec fn present(m: RegistryModel, channel: Uuid, user: Uuid) -> bool {
    m.rooms.contains_key(channel) && m.rooms[channel].participants.contains_key(user)
}

/// Someone whom LiveKit confirmed keeps its row, whatever any client hints.
pub proof fn law_hints_spare_confirmed(
    m: RegistryModel,
    channel: Uuid,
    user: Uuid,
    sid: Option<Seq<char>>,
    is_bot: bool,
    now: Reading,
    track: Seq<char>,
    source: TrackSource,
    published: bool,
    c: Uuid,
    u: Uuid,
)
    requires
        m.valid(),
        m.has_confirmed(c, u),
    ensures
        ({
            let row = m.rooms[c].participants[u];
            let joined = m.hint_joined(channel, user, sid, is_bot, now).0;
            let left = m.hint_left(channel, user).0;
            let hinted = m.track_hinted(channel, user, track, source, published);
            &&& present(joined, c, u) && joined.rooms[c].participants[u] == row
            &&& present(left, c, u) && left.rooms[c].participants[u] == row
            &&& hinted matches Ok(step) ==> present(step.0, c, u) && step.0.rooms[c].participants[u] == row
        }),
{
    if m.rooms.contains_key(channel) {
        let outcome = m.rooms[channel].hint_left(channel, user);
        if channel == c {
            assert(outcome.0.participants.contains_key(u));
            assert(outcome.0.participants.dom().contains(u));
        }
    }
}

/// A provisional row is taken out exactly when it is too old, and nobody else
/// is.
pub proof fn law_expiry_is_exact(m: RegistryModel, now: i128, c: Uuid, u: Uuid)
    requires
        m.valid(),
    ensures
        present(m.expired(now).0, c, u) <==> present(m, c, u)
            && !m.rooms[c].participants[u].has_expired(now),
        m.has_confirmed(c, u) ==> present(m.expired(now).0, c, u),
{
    let after = m.expired(now).0;
    if m.rooms.contains_key(c) {
        let room = m.rooms[c];
        let gone = room.expired_at(now);
        let outcome = room.expired(c, now);
        if m.aging(now).contains(c) {
            assert(outcome.0.participants.dom() =~= room.participants.dom().difference(gone));
            assert(outcome.0.participants.dom().contains(u) <==> room.participants.contains_key(u)
                && !room.participants[u].has_expired(now));
        } else {
            assert(!gone.contains(u));
        }
    }
}

/// The end of a session that is not the current one says nothing.
pub proof fn law_stale_leave_ignored(m: RegistryModel, channel: Uuid, user: Uuid, sid: Seq<char>)
    requires
        !(present(m, channel, user) && m.rooms[channel].participants[user].sid == Some(sid)),
    ensures
        m.left(channel, user, sid).0 == m,
        m.left(channel, user, sid).1.is_empty(),
{
    assert(m.left(channel, user, sid).0.rooms =~= m.rooms);
}

/// The current session's end takes the participant out, with every track that
/// it owns, and nobody else.
pub proof fn law_leave_takes_out_one(m: RegistryModel, channel: Uuid, user: Uuid, sid: Seq<char>, u: Uuid)
    requires
        m.valid(),
        present(m, channel, user),
        m.rooms[channel].participants[user].sid == Some(sid),
    ensures
        ({
            let after = m.left(channel, user, sid).0;
            &&& present(after, channel, u) <==> present(m, channel, u) && u != user
            &&& after.rooms.contains_key(channel) ==> forall|s: Seq<char>| #[trigger]
                after.rooms[channel].tracks.contains_key(s) <==> m.rooms[channel].tracks.contains_key(s)
                    && m.rooms[channel].tracks[s].owner != user
        }),
{
    let room = m.rooms[channel];
    let outcome = room.left(channel, user, sid);
    assert(outcome.0.participants.dom() =~= room.participants.dom().remove(user));
    assert(outcome.0.participants.dom().contains(u) <==> room.participants.contains_key(u) && u != user);
    assert forall|s: Seq<char>| #[trigger]
        outcome.0.tracks.contains_key(s) <==> room.tracks.contains_key(s) && room.tracks[s].owner != user by {
        assert(room.owned_by(set![user]).contains(s) <==> room.tracks.contains_key(s)
            && room.tracks[s].owner == user);
    }
}

/// A join confirms the row that is there and doubles nothing: what only this
/// server knows of it stays.
pub proof fn law_join_confirms(m: RegistryModel, channel: Uuid, user: Uuid, sid: Seq<char>, now: Reading)
    requires
        m.valid(),
        present(m, channel, user),
    ensures
        ({
            let step = m.joined(channel, user, sid, now);
            let row = m.rooms[channel].participants[user];
            &&& step.0.rooms[channel].participants.dom() == m.rooms[channel].participants.dom()
            &&& step.0.has_confirmed(channel, user)
            &&& step.1.participants_added.len() == 0
            &&& step.0.rooms[channel].participants[user].joined_at == row.joined_at
            &&& step.0.rooms[channel].participants[user].muted == row.muted
            &&& step.0.rooms[channel].participants[user].deafened == row.deafened
            &&& step.0.rooms[channel].participants[user].is_bot == row.is_bot
        }),
{
    let step = m.joined(channel, user, sid, now);
    assert(m.rooms[channel].participants[user].user_id == user);
    assert(step.0.rooms[channel].participants.dom() =~= m.rooms[channel].participants.dom());
}

/// One identity is in one channel: after an exclusive join `user` is in
/// `channel` and nowhere else, and nobody else came or went.
pub proof fn law_exclusive_join(
    m: RegistryModel,
    channel: Uuid,
    user: Uuid,
    sid: Seq<char>,
    now: Reading,
    c: Uuid,
    u: Uuid,
)
    requires
        m.valid(),
    ensures
        ({
            let after = m.joined_exclusive(channel, user, sid, now).0;
            &&& present(after, c, user) <==> c == channel
            &&& after.rooms[channel].participants[user].sid == Some(sid)
            &&& u != user ==> (present(after, c, u) <==> present(m, c, u))
        }),
{
    let others = m.elsewhere(channel, user);
    let evicted = m.evicted(channel, user);
    let after = m.joined_exclusive(channel, user, sid, now).0;
    assert(!others.contains(channel));
    if others.contains(c) {
        let room = m.rooms[c];
        let outcome = room.evicted(c, user);
        assert(outcome.0.participants.dom() =~= room.participants.dom().remove(user));
        assert(outcome.0.participants.dom().contains(u) <==> room.participants.contains_key(u) && u != user);
        assert(outcome.0.participants.dom().contains(user) <==> false);
    }
}

/// `channel_of` finds a channel that the user is in, if there is one.
pub proof fn law_channel_of_finds(m: RegistryModel, user: Uuid, c: Uuid)
    requires
        m.valid(),
    ensures
        m.channel_of(user) matches Some(d) ==> present(m, d, user),
        present(m, c, user) ==> (m.channel_of(user) matches Some(d) && d <= c),
{
    let set = m.rooms.dom().filter(|d: Uuid| m.rooms[d].participants.contains_key(user));
    assert(set.subset_of(m.rooms.dom()));
    vstd::set_lib::lemma_set_subset_finite(m.rooms.dom(), set);
    lemma_listing_exists(set, id_order());
    let ids = sorted_ids(set);
    if ids.len() > 0 {
        assert(ids.contains(ids[0]));
        assert(set.contains(ids[0]));
    }
    if present(m, c, user) {
        assert(set.contains(c));
        assert(ids.contains(c));
        let i = choose|i: int| 0 <= i < ids.len() && ids[i] == c;
        let lt = id_order();
        if i > 0 {
            assert(lt(ids[0], ids[i]));
        }
    }
}

/// How many versions a change counts: one, and one more where a track brings
/// its owner.
pub open spec fn counts(change: ChangeModel) -> nat {
    if change.reason == ChangeReason::WebhookTrackPublished && change.participants_added.len() > 0 {
        2
    } else {
        1
    }
}

/// Does a change count as the versions say? An empty change leaves the rows
/// and the version of its channel as they were; any other one leads from the
/// version that the channel had to the next. Other channels are not touched.
pub open spec fn counted(m: RegistryModel, step: Step) -> bool {
    let after = step.0;
    let change = step.1;
    let channel = change.channel_id;
    &&& forall|c: Uuid|
        c != channel ==> {
            &&& after.rooms.contains_key(c) == m.rooms.contains_key(c)
            &&& after.rooms.contains_key(c) ==> after.rooms[c] == m.rooms[c]
            &&& #[trigger] after.counter(c) == m.counter(c)
        }
    &&& change.is_empty() ==> {
        &&& after.counter(channel) == m.counter(channel)
        &&& after.opened(channel).participants == m.opened(channel).participants
        &&& after.opened(channel).tracks == m.opened(channel).tracks
    }
    &&& !change.is_empty() ==> {
        &&& change.version_before == m.counter(channel)
        &&& change.version_after == after.counter(channel)
        &&& change.version_after == change.version_before + counts(change)
    }
}

/// What LiveKit says of participants counts as the versions say.
pub proof fn law_presence_counted(m: RegistryModel, channel: Uuid, user: Uuid, sid: Seq<char>, now: Reading)
    ensures
        counted(m, m.joined(channel, user, sid, now)),
        counted(m, m.left(channel, user, sid)),
{
}

/// What LiveKit says of tracks counts as the versions say.
pub proof fn law_tracks_counted(
    m: RegistryModel,
    channel: Uuid,
    user: Uuid,
    session: Option<Seq<char>>,
    sid: Seq<char>,
    source: TrackSource,
    muted: bool,
    now: Reading,
)
    ensures
        counted(m, m.published(channel, user, session, sid, source, now)),
        counted(m, m.unpublished(channel, sid)),
        counted(m, m.track_muted(channel, sid, muted)),
{
}

/// What clients hint counts as the versions say.
pub proof fn law_hints_counted(
    m: RegistryModel,
    channel: Uuid,
    user: Uuid,
    sid: Option<Seq<char>>,
    is_bot: bool,
    now: Reading,
    track: Seq<char>,
    source: TrackSource,
    published: bool,
)
    ensures
        counted(m, m.hint_joined(channel, user, sid, is_bot, now)),
        counted(m, m.hint_left(channel, user)),
        m.track_hinted(channel, user, track, source, published) matches Ok(step) ==> counted(m, step),
{
}

/// What only this server knows counts as the versions say, and so does the
/// deletion of a channel.
pub proof fn law_own_state_counted(
    m: RegistryModel,
    channel: Uuid,
    user: Uuid,
    muted: Option<bool>,
    deafened: Option<bool>,
    playing: bool,
)
    ensures
        m.audio_set(channel, user, muted, deafened) matches Ok(step) ==> counted(m, step),
        counted(m, m.music_set(channel, playing)),
        counted(m, m.channel_closed(channel)),
{
    assert(RoomModel::fresh(0).participants.dom() =~= Set::empty());
}

/// A reconciliation counts as the versions say: in step with LiveKit it
/// counts nothing.
pub proof fn law_reconciled_counted(m: RegistryModel, channel: Uuid, live: Seq<LiveParticipant>, now: Reading)
    requires
        m.valid(),
    ensures
        counted(m, m.reconciled(channel, live, now)),
{
    let room = m.opened(channel);
    crate::voice::validity::lemma_opened_valid(m, channel);
    law_reconciled_told(room, channel, live, now);
    let outcome = room.reconciled(channel, live, now);
    let d = outcome.1;
    if d.is_empty() {
        assert(room.participants.remove_keys(d.participants_removed.to_set()) =~= room.participants);
        assert(room.tracks.remove_keys(d.tracks_removed.to_set()) =~= room.tracks);
        assert(put_all(room.participants, d.participants_added) == room.participants);
        assert(put_all_tracks(room.tracks, d.tracks_added) == room.tracks);
    }
}

/// Versions never go back, whatever sweeps over many rooms.
pub proof fn law_versions_never_go_back(
    m: RegistryModel,
    channel: Uuid,
    user: Uuid,
    sid: Seq<char>,
    live: Set<Uuid>,
    now: Reading,
    c: Uuid,
)
    requires
        m.valid(),
    ensures
        m.counter(c) <= m.expired(now.mono).0.counter(c),
        m.counter(c) <= m.pruned(live).0.counter(c),
        m.counter(c) <= m.joined_exclusive(channel, user, sid, now).0.counter(c),
{
    assert(RoomModel::fresh(0).participants.dom() =~= Set::empty());
    if m.unreported(live).contains(c) {
        assert(m.rooms[c].closed(c, ChangeReason::ReconcileRemoved).0.participants.dom() =~= Set::empty());
    }
    let evicted = m.evicted(channel, user);
    assert(m.counter(c) <= evicted.counter(c));
    assert(counted(evicted, evicted.joined(channel, user, sid, now)));
    let after = m.joined_exclusive(channel, user, sid, now).0;
    if c != channel {
        assert(after.counter(c) == evicted.counter(c));
    }
}

/// What a sweep reports of each room leads from the version that the room had
/// to the next.
pub proof fn law_sweeps_counted(m: RegistryModel, live: Set<Uuid>, now: i128, i: int)
    requires
        m.valid(),
    ensures
        0 <= i < m.expired(now).1.len() ==> {
            let d = m.expired(now).1[i];
            &&& d.version_before == m.counter(d.channel_id)
            &&& d.version_after == d.version_before + 1
            &&& d.version_after == m.expired(now).0.counter(d.channel_id)
        },
        0 <= i < m.pruned(live).1.len() ==> {
            let d = m.pruned(live).1[i];
            &&& d.version_before == m.counter(d.channel_id)
            &&& d.version_after == d.version_before + 1
            &&& d.version_after == m.pruned(live).0.counter(d.channel_id)
            &&& d.room_closed
        },
{
    let aging = m.aging(now);
    let dead = m.unreported(live);
    assert(aging.subset_of(m.rooms.dom()));
    vstd::set_lib::lemma_set_subset_finite(m.rooms.dom(), aging);
    assert(dead.subset_of(m.rooms.dom()));
    vstd::set_lib::lemma_set_subset_finite(m.rooms.dom(), dead);
    lemma_listing_exists(aging, id_order());
    lemma_listing_exists(dead, id_order());
    if 0 <= i < sorted_ids(aging).len() {
        let c = sorted_ids(aging)[i];
        assert(sorted_ids(aging).contains(c));
        assert(aging.contains(c));
    }
    if 0 <= i < sorted_ids(dead).len() {
        let c = sorted_ids(dead)[i];
        assert(sorted_ids(dead).contains(c));
        assert(dead.contains(c));
        assert(m.rooms[c].closed(c, ChangeReason::ReconcileRemoved).0.participants.dom() =~= Set::empty());
    }
}

/// What is delivered twice counts once.
pub proof fn law_redelivery_counts_once(
    m: RegistryModel,
    channel: Uuid,
    user: Uuid,
    session: Seq<char>,
    owner_session: Option<Seq<char>>,
    track: Seq<char>,
    source: TrackSource,
    muted: bool,
    now: Reading,
    later: Reading,
)
    requires
        m.valid(),
    ensures
        m.joined(channel, user, session, now).0.joined(channel, user, session, later).1.is_empty(),
        m.left(channel, user, session).0.left(channel, user, session).1.is_empty(),
        m.published(channel, user, owner_session, track, source, now).0.published(
            channel,
            user,
            owner_session,
            track,
            source,
            later,
        ).1.is_empty(),
        m.unpublished(channel, track).0.unpublished(channel, track).1.is_empty(),
        m.track_muted(channel, track, muted).0.track_muted(channel, track, muted).1.is_empty(),
{
    if m.rooms.contains_key(channel) {
        let room = m.rooms[channel];
        let outcome = room.left(channel, user, session);
        assert(!outcome.0.participants.contains_key(user) || outcome.0.participants[user].sid != Some(session));
        if room.tracks.contains_key(track) {
            assert(room.tracks[track].sid == track);
        }
        if room.participants.contains_key(user) {
            assert(room.participants[user].user_id == user);
        }
    }
}

/// A share that is published again under a new SID leaves only the new track,
/// whether its end or the new publication is heard of first.
pub proof fn law_republish_in_any_order(
    m: RegistryModel,
    channel: Uuid,
    user: Uuid,
    session: Option<Seq<char>>,
    old_sid: Seq<char>,
    new_sid: Seq<char>,
    source: TrackSource,
    now: Reading,
)
    requires
        m.valid(),
        old_sid != new_sid,
    ensures
        ({
            let down_first = m.unpublished(channel, old_sid).0.published(
                channel,
                user,
                session,
                new_sid,
                source,
                now,
            ).0;
            let up_first = m.published(channel, user, session, new_sid, source, now).0.unpublished(
                channel,
                old_sid,
            ).0;
            &&& down_first.rooms[channel].tracks == up_first.rooms[channel].tracks
            &&& down_first.rooms[channel].participants == up_first.rooms[channel].participants
            &&& down_first.rooms[channel].version == up_first.rooms[channel].version
            &&& !up_first.rooms[channel].tracks.contains_key(old_sid)
            &&& up_first.rooms[channel].tracks.contains_key(new_sid)
        }),
{
    let down_first = m.unpublished(channel, old_sid).0.published(
        channel,
        user,
        session,
        new_sid,
        source,
        now,
    ).0;
    let up_first = m.published(channel, user, session, new_sid, source, now).0.unpublished(
        channel,
        old_sid,
    ).0;
    assert(down_first.rooms[channel].tracks =~= up_first.rooms[channel].tracks);
}

/// Only the owner of a track takes it down by a hint, and where a hint is
/// refused nothing is changed: there is no step at all.
pub proof fn law_only_owner_takes_down(
    m: RegistryModel,
    channel: Uuid,
    user: Uuid,
    sid: Seq<char>,
    source: TrackSource,
)
    ensures
        ({
            let hinted = m.track_hinted(channel, user, sid, source, false);
            let there = m.rooms.contains_key(channel) && m.rooms[channel].tracks.contains_key(sid);
            &&& hinted is Ok <==> there && m.rooms[channel].tracks[sid].owner == user
            &&& hinted == Err::<Step, HintError>(HintError::NotTrackOwner) <==> there
                && m.rooms[channel].tracks[sid].owner != user
            &&& hinted == Err::<Step, HintError>(HintError::TrackNotFound) <==> !there
        }),
{
}

/// Nobody publishes by a hint who is not in the call.
pub proof fn law_publisher_is_present(
    m: RegistryModel,
    channel: Uuid,
    user: Uuid,
    sid: Seq<char>,
    source: TrackSource,
)
    ensures
        m.track_hinted(channel, user, sid, source, true) is Ok <==> present(m, channel, user),
        !present(m, channel, user) ==> m.track_hinted(channel, user, sid, source, true) == Err::<
            Step,
            HintError,
        >(HintError::NotInCall),
{
}

/// A provisional row and the music bot take no place; a person who joins
/// takes one.
pub proof fn law_places(m: RegistryModel, channel: Uuid, user: Uuid, sid: Seq<char>, now: Reading)
    requires
        m.valid(),
        !present(m, channel, user),
    ensures
        m.hint_joined(channel, user, None, false, now).0.rooms[channel].human_count() == m.opened(
            channel,
        ).human_count(),
        m.joined(channel, user, sid, now).0.rooms[channel].human_count() == m.opened(
            channel,
        ).human_count() + if user == MUSIC_BOT_ID {
            0nat
        } else {
            1nat
        },
{
    let room = m.opened(channel);
    crate::voice::validity::lemma_opened_valid(m, channel);
    let before = room.participants.dom().filter(|u: Uuid| room.participants[u].is_counted());
    assert(before.subset_of(room.participants.dom()));
    vstd::set_lib::lemma_set_subset_finite(room.participants.dom(), before);
    let hinted = m.hint_joined(channel, user, None, false, now).0.rooms[channel];
    let joined = m.joined(channel, user, sid, now).0.rooms[channel];
    assert(hinted.participants.dom().filter(|u: Uuid| hinted.participants[u].is_counted()) =~= before);
    let after = joined.participants.dom().filter(|u: Uuid| joined.participants[u].is_counted());
    if user == MUSIC_BOT_ID {
        assert(after =~= before);
    } else {
        assert(after =~= before.insert(user));
        assert(!before.contains(user));
    }
}

/// Is the music bot marked as a bot, and nobody else?
pub open spec fn bot_marked(room: RoomModel) -> bool {
    forall|u: Uuid| #[trigger]
        room.participants.contains_key(u) ==> (room.participants[u].is_bot <==> u == MUSIC_BOT_ID)
}

/// Taking a list in marks nobody but the music bot.
proof fn lemma_seated_marked(start: Seating, live: Seq<LiveParticipant>, now: Reading)
    requires
        start.room.valid(),
        bot_marked(start.room),
    ensures
        bot_marked(start.take_in_all(live, now).room),
    decreases live.len(),
{
    if live.len() > 0 {
        lemma_seated_marked(start, live.drop_last(), now);
        lemma_take_in_all(start, live.drop_last(), now);
        let some = start.take_in_all(live.drop_last(), now);
        let p = live.last();
        if some.room.participants.contains_key(p.user_id) {
            assert(some.room.participants[p.user_id].user_id == p.user_id);
        }
    }
}

/// Whatever happens, the music bot is marked as a bot and nobody else is.
pub proof fn law_only_the_bot_is_marked(
    room: RoomModel,
    channel: Uuid,
    user: Uuid,
    session: Option<Seq<char>>,
    sid: Seq<char>,
    source: TrackSource,
    muted: Option<bool>,
    deafened: Option<bool>,
    live: Seq<LiveParticipant>,
    now: Reading,
    version: nat,
)
    requires
        room.valid(),
        bot_marked(room),
    ensures
        bot_marked(RoomModel::fresh(version)),
        bot_marked(room.joined(channel, user, sid, now).0),
        bot_marked(room.left(channel, user, sid).0),
        bot_marked(room.published(channel, user, session, sid, source, now).0),
        bot_marked(room.reconciled(channel, live, now).0),
        bot_marked(room.hint_joined(channel, user, session, user == MUSIC_BOT_ID, now).0),
        bot_marked(room.hint_left(channel, user).0),
        room.audio_set(channel, user, muted, deafened) matches Ok(o) ==> bot_marked(o.0),
        bot_marked(room.expired(channel, now.mono).0),
{
    if room.participants.contains_key(user) {
        assert(room.participants[user].user_id == user);
    }
    let gone = room.absent(live_users(live), now.mono);
    let start = Seating {
        room: room.without_users(gone),
        added: Seq::empty(),
        updated: Seq::empty(),
    };
    lemma_without_users_valid(room, gone);
    lemma_seated_marked(start, live, now);
}

/// A reconciliation leaves in the room, confirmed, exactly those whom LiveKit
/// lists. Whoever else stays is provisional and not too old.
pub proof fn law_reconcile_mirrors(
    room: RoomModel,
    channel: Uuid,
    live: Seq<LiveParticipant>,
    now: Reading,
    u: Uuid,
)
    requires
        room.valid(),
    ensures
        ({
            let after = room.reconciled(channel, live, now).0;
            &&& after.has_confirmed(u) <==> live_users(live).contains(u)
            &&& after.participants.contains_key(u) && !live_users(live).contains(u)
                ==> room.participants.contains_key(u) && after.participants[u] == room.participants[u]
                && !room.participants[u].has_expired(now.mono)
            &&& live_users(live).contains(u) && room.participants.contains_key(u) ==> {
                &&& after.participants[u].muted == room.participants[u].muted
                &&& after.participants[u].deafened == room.participants[u].deafened
                &&& after.participants[u].is_bot == room.participants[u].is_bot
                &&& after.participants[u].joined_at == room.participants[u].joined_at
            }
        }),
{
    let gone = room.absent(live_users(live), now.mono);
    let kept = room.without_users(gone);
    let start = Seating { room: kept, added: Seq::empty(), updated: Seq::empty() };
    lemma_without_users_valid(room, gone);
    lemma_take_in_all(start, live, now);
    lemma_seated_row(start, live, now, u);
    if room.participants.contains_key(u) {
        assert(gone.contains(u) <==> !live_users(live).contains(u) && (
        room.participants[u].provisional_since is None || room.participants[u].has_expired(now.mono)));
    }
}

/// The row of someone once a list was taken in.
proof fn lemma_seated_row(start: Seating, live: Seq<LiveParticipant>, now: Reading, u: Uuid)
    requires
        start.room.valid(),
    ensures
        ({
            let after = start.take_in_all(live, now).room;
            &&& !live_users(live).contains(u) ==> (after.participants.contains_key(u)
                <==> start.room.participants.contains_key(u)) && after.participants[u]
                == start.room.participants[u]
            &&& live_users(live).contains(u) ==> after.has_confirmed(u)
            &&& start.room.participants.contains_key(u) ==> {
                &&& after.participants.contains_key(u)
                &&& after.participants[u].muted == start.room.participants[u].muted
                &&& after.participants[u].deafened == start.room.participants[u].deafened
                &&& after.participants[u].is_bot == start.room.participants[u].is_bot
                &&& after.participants[u].joined_at == start.room.participants[u].joined_at
            }
        }),
    decreases live.len(),
{
    if live.len() > 0 {
        let some = start.take_in_all(live.drop_last(), now);
        lemma_seated_row(start, live.drop_last(), now, u);
        lemma_live_users_last(live, u);
        lemma_take_in_all(start, live.drop_last(), now);
        let p = live.last();
        if some.room.participants.contains_key(p.user_id) {
            assert(some.room.participants[p.user_id].user_id == p.user_id);
        }
    } else {
        assert(!live_users(live).contains(u));
    }
}

/// The session of each listed participant is the listed one, where nobody is
/// listed twice.
proof fn lemma_seated_session(start: Seating, live: Seq<LiveParticipant>, now: Reading, i: int)
    requires
        start.room.valid(),
        0 <= i < live.len(),
        forall|j: int, k: int|
            0 <= j < k < live.len() ==> (#[trigger] live[j]).user_id != (#[trigger] live[k]).user_id,
    ensures
        ({
            let after = start.take_in_all(live, now).room;
            after.participants.contains_key(live[i].user_id) && after.participants[live[i].user_id].sid
                == Some(live[i].sid)
        }),
    decreases live.len(),
{
    let some = live.drop_last();
    lemma_take_in_all(start, some, now);
    let seated = start.take_in_all(some, now);
    let p = live.last();
    if seated.room.participants.contains_key(p.user_id) {
        assert(seated.room.participants[p.user_id].user_id == p.user_id);
    }
    if i < some.len() {
        assert forall|j: int, k: int| 0 <= j < k < some.len() implies (#[trigger] some[j]).user_id != (
        #[trigger] some[k]).user_id by {
            assert(live[j].user_id != live[k].user_id);
        }
        lemma_seated_session(start, some, now, i);
        assert(live[i].user_id != live[live.len() - 1].user_id);
    }
}

/// Where nobody has another session, taking a list in changes nothing.
proof fn lemma_nothing_to_take_in(start: Seating, live: Seq<LiveParticipant>, now: Reading)
    requires
        forall|i: int|
            0 <= i < live.len() ==> start.room.participants.contains_key((#[trigger] live[i]).user_id)
                && start.room.participants[live[i].user_id].sid == Some(live[i].sid),
    ensures
        start.take_in_all(live, now) == start,
    decreases live.len(),
{
    if live.len() > 0 {
        let some = live.drop_last();
        assert forall|i: int| 0 <= i < some.len() implies start.room.participants.contains_key(
            (#[trigger] some[i]).user_id,
        ) && start.room.participants[some[i].user_id].sid == Some(some[i].sid) by {
            assert(some[i] == live[i]);
        }
        lemma_nothing_to_take_in(start, some, now);
        assert(live[live.len() - 1] == live.last());
    }
}

/// In step with LiveKit a reconciliation finds nothing to do: a second one at
/// the same moment is empty. (Someone who is listed twice, with two sessions,
/// would be confirmed anew each time.)
pub proof fn law_reconcile_settles(room: RoomModel, channel: Uuid, live: Seq<LiveParticipant>, now: Reading)
    requires
        room.valid(),
        forall|j: int, k: int|
            0 <= j < k < live.len() ==> (#[trigger] live[j]).user_id != (#[trigger] live[k]).user_id,
    ensures
        room.reconciled(channel, live, now).0.reconciled(channel, live, now).1.is_empty(),
{
    let after = room.reconciled(channel, live, now).0;
    let users = live_users(live);
    let listed = by_sid(live_rows(live));
    let gone = room.absent(users, now.mono);
    let kept = room.without_users(gone);
    let first = Seating { room: kept, added: Seq::empty(), updated: Seq::empty() };
    let seated = first.take_in_all(live, now).room;
    lemma_without_users_valid(room, gone);
    lemma_take_in_all(first, live, now);
    crate::voice::validity::lemma_reconciled_valid(room, channel, live, now);

    let again = after.absent(users, now.mono);
    assert(again =~= Set::empty()) by {
        assert forall|u: Uuid| !again.contains(u) by {
            law_reconcile_mirrors(room, channel, live, now, u);
        }
    }
    lemma_listing_exists(again, id_order());
    assert(sorted_ids(again).len() == 0) by {
        if sorted_ids(again).len() > 0 {
            assert(sorted_ids(again).contains(sorted_ids(again)[0]));
            assert(again.contains(sorted_ids(again)[0]));
        }
    }
    let same = after.without_users(again);
    let owned = after.owned_by(again);
    assert(owned =~= Set::empty());
    assert(same =~= after);
    lemma_text_order();
    lemma_nothing_listed(owned);
    let second = Seating { room: same, added: Seq::empty(), updated: Seq::empty() };
    assert forall|i: int| 0 <= i < live.len() implies second.room.participants.contains_key(
        (#[trigger] live[i]).user_id,
    ) && second.room.participants[live[i].user_id].sid == Some(live[i].sid) by {
        lemma_seated_session(first, live, now, i);
    }
    lemma_nothing_to_take_in(second, live, now);
    assert(same.unlisted(listed) =~= Set::empty());
    lemma_nothing_listed(same.unlisted(listed));
    assert(same.unsynced(listed) =~= Set::empty());
    lemma_nothing_listed(same.unsynced(listed));
}

/// The listing of no strings is empty.
proof fn lemma_nothing_listed(set: Set<Seq<char>>)
    requires
        set == Set::<Seq<char>>::empty(),
    ensures
        sorted_texts(set).len() == 0,
{
    lemma_text_order();
    lemma_listing_exists(set, text_order());
    if sorted_texts(set).len() > 0 {
        assert(sorted_texts(set).contains(sorted_texts(set)[0]));
        assert(set.contains(sorted_texts(set)[0]));
    }
}

/// After a reconciliation every listed track is there exactly as it is listed,
/// with the session of its owner, and every other track that LiveKit knew is
/// gone. A music row stays as it is unless its owner left.
pub proof fn law_reconcile_mirrors_tracks(
    room: RoomModel,
    channel: Uuid,
    live: Seq<LiveParticipant>,
    now: Reading,
    s: Seq<char>,
)
    requires
        room.valid(),
    ensures
        ({
            let after = room.reconciled(channel, live, now).0;
            let listed = by_sid(live_rows(live));
            let gone = room.absent(live_users(live), now.mono);
            let music = room.is_music_row(s) && !gone.contains(room.tracks[s].owner);
            &&& listed.contains_key(s) && !music ==> after.tracks.contains_key(s) && after.tracks[s]
                == listed[s]
            &&& !listed.contains_key(s) && !music ==> !after.tracks.contains_key(s)
            &&& music ==> after.tracks.contains_key(s) && after.tracks[s] == room.tracks[s]
        }),
{
    let gone = room.absent(live_users(live), now.mono);
    let kept = room.without_users(gone);
    let first = Seating { room: kept, added: Seq::empty(), updated: Seq::empty() };
    lemma_without_users_valid(room, gone);
    lemma_take_in_all(first, live, now);
}

/// A listed row names the session of its owner.
proof fn lemma_row_of_session(live: Seq<LiveParticipant>, i: int) -> (k: int)
    requires
        0 <= i < live_rows(live).len(),
    ensures
        0 <= k < live.len(),
        live_rows(live)[i].owner == live[k].user_id,
        live_rows(live)[i].owner_sid == Some(live[k].sid),
    decreases live.len(),
{
    let some = live.drop_last();
    if i < live_rows(some).len() {
        lemma_row_of_session(some, i)
    } else {
        live.len() - 1
    }
}

/// After a reconciliation every track but a music row names the session in
/// which its owner is confirmed, whoever told of the track first. (Someone who
/// is listed twice has two sessions, and a row names only one.)
pub proof fn law_reconciled_tracks_name_sessions(
    room: RoomModel,
    channel: Uuid,
    live: Seq<LiveParticipant>,
    now: Reading,
    s: Seq<char>,
)
    requires
        room.valid(),
        forall|j: int, k: int|
            0 <= j < k < live.len() ==> (#[trigger] live[j]).user_id != (#[trigger] live[k]).user_id,
    ensures
        ({
            let after = room.reconciled(channel, live, now).0;
            let track = after.tracks[s];
            after.tracks.contains_key(s) && track.source != TrackSource::Music ==> {
                &&& track.owner_sid is Some
                &&& after.participants.contains_key(track.owner)
                &&& after.participants[track.owner].sid == track.owner_sid
            }
        }),
{
    let after = room.reconciled(channel, live, now).0;
    let gone = room.absent(live_users(live), now.mono);
    let first = Seating {
        room: room.without_users(gone),
        added: Seq::empty(),
        updated: Seq::empty(),
    };
    lemma_without_users_valid(room, gone);
    lemma_take_in_all(first, live, now);
    if after.tracks.contains_key(s) && after.tracks[s].source != TrackSource::Music {
        let i = lemma_by_sid_row(live_rows(live), s);
        let k = lemma_row_of_session(live, i);
        lemma_seated_session(first, live, now, k);
    }
}

impl RegistryModel {
    /// The registry that has seen many events, one after the other.
    pub open spec fn having_seen_all(self, keys: Seq<Seq<char>>) -> Self
        decreases keys.len(),
    {
        if keys.len() == 0 {
            self
        } else {
            self.having_seen_all(keys.drop_last()).having_seen(keys.last())
        }
    }
}

/// An event that was just seen is known.
pub proof fn law_seen_event_known(m: RegistryModel, key: Seq<char>)
    requires
        m.valid(),
    ensures
        m.having_seen(key).seen.contains(key),
        m.having_seen(key).valid(),
        m.having_seen(key).rooms == m.rooms,
{
    let all = m.seen.push(key);
    assert(all[m.seen.len() as int] == key);
    if !m.seen.contains(key) {
        assert(all.no_duplicates()) by {
            assert forall|i: int, j: int| 0 <= i < j < all.len() implies all[i] != all[j] by {
                if j == m.seen.len() {
                    assert(m.seen.contains(m.seen[i]));
                }
            }
        }
        if m.seen.len() >= SEEN_EVENTS_CAP {
            assert(all.skip(1)[m.seen.len() - 1] == key);
        }
    }
}

/// An event is remembered while fewer than `SEEN_EVENTS_CAP` come after it.
pub proof fn law_event_remembered(m: RegistryModel, key: Seq<char>, later: Seq<Seq<char>>)
    requires
        m.valid(),
        !m.seen.contains(key),
        later.len() < SEEN_EVENTS_CAP,
    ensures
        m.having_seen(key).having_seen_all(later).seen.contains(key),
{
    law_seen_event_known(m, key);
    let seen = m.having_seen(key);
    let at = seen.seen.len() - 1;
    assert(seen.seen[at] == key);
    lemma_ring(seen, at, later);
    let after = seen.having_seen_all(later);
    let i = choose|i: int| 0 <= i < after.seen.len() && #[trigger] after.seen[i] == seen.seen[at]
        && after.seen.len() - i <= later.len() + 1;
    assert(after.seen[i] == key);
}

/// An event is never further from the end of the ring than events came after
/// it.
proof fn lemma_ring(m: RegistryModel, at: int, keys: Seq<Seq<char>>)
    requires
        m.valid(),
        at == m.seen.len() - 1,
        0 <= at,
        keys.len() < SEEN_EVENTS_CAP,
    ensures
        ({
            let after = m.having_seen_all(keys);
            &&& after.valid()
            &&& exists|i: int|
                0 <= i < after.seen.len() && #[trigger] after.seen[i] == m.seen[at] && after.seen.len() - i
                    <= keys.len() + 1
        }),
    decreases keys.len(),
{
    if keys.len() > 0 {
        let some = keys.drop_last();
        lemma_ring(m, at, some);
        let middle = m.having_seen_all(some);
        let i = choose|i: int| 0 <= i < middle.seen.len() && #[trigger] middle.seen[i] == m.seen[at]
            && middle.seen.len() - i <= some.len() + 1;
        law_seen_event_known(middle, keys.last());
        let after = m.having_seen_all(keys);
        if middle.seen.contains(keys.last()) {
            assert(after.seen[i] == m.seen[at]);
        } else if middle.seen.len() < SEEN_EVENTS_CAP {
            assert(after.seen[i] == m.seen[at]);
        } else {
            assert(after.seen[i - 1] == middle.seen.push(keys.last())[i]);
            assert(after.seen[i - 1] == m.seen[at]);
        }
    } else {
        assert(m.having_seen_all(keys).seen[at] == m.seen[at]);
    }
}

/// An event is forgotten once `SEEN_EVENTS_CAP` others came after it.
pub proof fn law_event_forgotten(m: RegistryModel, key: Seq<char>, later: Seq<Seq<char>>)
    requires
        m.valid(),
        m.seen.contains(key),
        later.len() == SEEN_EVENTS_CAP,
        later.no_duplicates(),
        forall|i: int| 0 <= i < later.len() ==> !m.seen.contains(#[trigger] later[i]),
    ensures
        !m.having_seen_all(later).seen.contains(key),
{
    lemma_new_events_fill(m, later, SEEN_EVENTS_CAP as int);
    let after = m.having_seen_all(later);
    assert(later.take(SEEN_EVENTS_CAP as int) =~= later);
    if after.seen.contains(key) {
        let i = choose|i: int| 0 <= i < after.seen.len() && after.seen[i] == key;
        assert(after.seen[after.seen.len() - SEEN_EVENTS_CAP + i] == later[i]);
        assert(!m.seen.contains(later[i]));
    }
}

/// New events take the places at the end of the ring, in their order.
proof fn lemma_new_events_fill(m: RegistryModel, keys: Seq<Seq<char>>, n: int)
    requires
        m.valid(),
        keys.len() == SEEN_EVENTS_CAP,
        0 <= n <= keys.len(),
        keys.no_duplicates(),
        forall|i: int| 0 <= i < keys.len() ==> !m.seen.contains(#[trigger] keys[i]),
    ensures
        ({
            let after = m.having_seen_all(keys.take(n));
            &&& after.valid()
            &&& n <= after.seen.len()
            &&& after.seen.len() == if m.seen.len() + n <= SEEN_EVENTS_CAP {
                m.seen.len() + n
            } else {
                SEEN_EVENTS_CAP as int
            }
            &&& forall|i: int|
                0 <= i < n ==> #[trigger] after.seen[after.seen.len() - n + i] == keys[i]
            &&& forall|i: int|
                0 <= i < after.seen.len() - n ==> m.seen.contains(#[trigger] after.seen[i])
        }),
    decreases n,
{
    if n > 0 {
        let some = keys.take(n - 1);
        let more = keys.take(n);
        assert(more.drop_last() =~= some);
        assert(more.last() == keys[n - 1]);
        lemma_new_events_fill(m, keys, n - 1);
        let middle = m.having_seen_all(some);
        let after = m.having_seen_all(more);
        let key = keys[n - 1];
        let len = middle.seen.len();
        assert(!middle.seen.contains(key)) by {
            if middle.seen.contains(key) {
                let i = choose|i: int| 0 <= i < len && middle.seen[i] == key;
                if i < len - (n - 1) {
                    assert(m.seen.contains(middle.seen[i]));
                } else {
                    let k = i - (len - (n - 1));
                    assert(middle.seen[len - (n - 1) + k] == keys[k]);
                }
            }
        }
        law_seen_event_known(middle, key);
        let all = middle.seen.push(key);
        assert forall|i: int| 0 <= i < n implies #[trigger] after.seen[after.seen.len() - n + i] == keys[i] by {
            if i < n - 1 {
                assert(middle.seen[len - (n - 1) + i] == keys[i]);
                assert(all[len - (n - 1) + i] == keys[i]);
            } else {
                assert(all[len as int] == key);
            }
        }
        assert forall|i: int| 0 <= i < after.seen.len() - n implies m.seen.contains(#[trigger] after.seen[i]) by {
            if len < SEEN_EVENTS_CAP {
                assert(after.seen[i] == middle.seen[i]);
            } else {
                assert(after.seen[i] == middle.seen[i + 1]);
            }
        }
    } else {
        assert(keys.take(0) =~= Seq::empty());
    }
}

/// The music row of a channel is that channel's alone, and no track of LiveKit
/// has its SID.
pub proof fn law_music_row_apart(a: Uuid, b: Uuid)
    ensures
        music_sid(a) == music_sid(b) ==> a == b,
        !has_prefix(music_sid(a), "TR_"@),
{
    reveal_strlit("music:");
    reveal_strlit("TR_");
    if music_sid(a) == music_sid(b) {
        assert(uuid_text(a) =~= music_sid(a).skip(6));
        assert(uuid_text(b) =~= music_sid(b).skip(6));
        law_uuid_text_injective(a, b);
    }
    assert(music_sid(a)[0] == 'm');
    if has_prefix(music_sid(a), "TR_"@) {
        assert(music_sid(a).take(3)[0] == "TR_"@[0]);
    }
}

} // verus!
