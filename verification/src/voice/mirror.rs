//! What a reconciliation is for, said of the list that LiveKit gives, of the
//! rows of the room and of the report.

use vstd::prelude::*;

use crate::clock::Reading;
use crate::ident::Uuid;
use crate::text::lex_lt;
use crate::voice::model::{
    by_sid, live_rows, live_users, LiveParticipant, ParticipantModel, RoomModel, Seating, TrackModel,
};
use crate::voice::reconcile::{lemma_by_sid_finite, lemma_without_users_valid};
use crate::voice::rows::{ids_rise, law_ids_listed, law_texts_listed, leads, overdue};
use crate::voice::types::{ChangeReason, TrackSource};
use crate::voice::validity::{lemma_by_sid_row, lemma_live_users_last, lemma_take_in_all};

verus! {

/// Is `user` in the list?
pub open spec fn names(live: Seq<LiveParticipant>, user: Uuid) -> bool {
    exists|i: int| 0 <= i < live.len() && (#[trigger] live[i]).user_id == user
}

/// Is this the last that the list says of its user?
pub open spec fn last_word(live: Seq<LiveParticipant>, i: int) -> bool {
    &&& 0 <= i < live.len()
    &&& forall|j: int| i < j < live.len() ==> (#[trigger] live[j]).user_id != live[i].user_id
}

/// Is nobody in the list twice?
pub open spec fn each_once(live: Seq<LiveParticipant>) -> bool {
    forall|i: int, j: int|
        0 <= i < j < live.len() ==> (#[trigger] live[i]).user_id != (#[trigger] live[j]).user_id
}

/// Does `user` go? It does if it is in the room, is not in the list, and was
/// confirmed or has been provisional for ten seconds or longer.
pub open spec fn goes(room: RoomModel, live: Seq<LiveParticipant>, now: Reading, user: Uuid) -> bool {
    &&& room.participants.contains_key(user)
    &&& !names(live, user)
    &&& room.participants[user].provisional_since is None || overdue(room, user, now.mono)
}

/// Is there a track `sid` at place `k` of the `i`-th participant of the list?
pub open spec fn track_at(live: Seq<LiveParticipant>, i: int, k: int, sid: Seq<char>) -> bool {
    &&& 0 <= i < live.len()
    &&& 0 <= k < live[i].tracks.len()
    &&& live[i].tracks[k].sid == sid
}

/// Is the track `sid` in the list?
pub open spec fn lists_track(live: Seq<LiveParticipant>, sid: Seq<char>) -> bool {
    exists|i: int, k: int| track_at(live, i, k, sid)
}

/// Is this the last that the list says of the track `sid`?
pub open spec fn last_track(live: Seq<LiveParticipant>, i: int, k: int, sid: Seq<char>) -> bool {
    &&& track_at(live, i, k, sid)
    &&& forall|j: int, l: int| #[trigger] track_at(live, j, l, sid) ==> j < i || (j == i && l <= k)
}

/// Is the track `sid` a music row whose owner stays?
pub open spec fn music_stays(room: RoomModel, live: Seq<LiveParticipant>, now: Reading, sid: Seq<char>) -> bool {
    &&& room.tracks.contains_key(sid)
    &&& room.tracks[sid].source == TrackSource::Music
    &&& !goes(room, live, now, room.tracks[sid].owner)
}

/// Does `t` say what the list says at place `k` of its `i`-th participant?
pub open spec fn as_listed(live: Seq<LiveParticipant>, i: int, k: int, t: TrackModel) -> bool {
    &&& t.sid == live[i].tracks[k].sid
    &&& t.owner == live[i].user_id
    &&& t.owner_sid == Some(live[i].sid)
    &&& t.source == live[i].tracks[k].source
    &&& t.muted == live[i].tracks[k].muted
}

/// The seating of a room whose absent participants have gone.
spec fn opening(room: RoomModel, live: Seq<LiveParticipant>, now: Reading) -> Seating {
    Seating {
        room: room.without_users(room.absent(live_users(live), now.mono)),
        added: Seq::empty(),
        updated: Seq::empty(),
    }
}

proof fn lemma_goes(room: RoomModel, live: Seq<LiveParticipant>, now: Reading, u: Uuid)
    ensures
        room.absent(live_users(live), now.mono).contains(u) <==> goes(room, live, now, u),
        live_users(live).contains(u) <==> names(live, u),
{
}

/// The row of someone once a list was taken in, by the last that the list says
/// of it.
proof fn lemma_seated(start: Seating, live: Seq<LiveParticipant>, now: Reading, i: int)
    requires
        start.room.valid(),
        last_word(live, i),
    ensures
        ({
            let u = live[i].user_id;
            let after = start.take_in_all(live, now).room;
            let row = after.participants[u];
            let was = start.room.participants[u];
            &&& after.participants.contains_key(u)
            &&& row.user_id == u
            &&& row.sid == Some(live[i].sid)
            &&& row.provisional_since is None
            &&& start.room.participants.contains_key(u) ==> row.joined_at == was.joined_at && row.muted
                == was.muted && row.deafened == was.deafened && row.is_bot == was.is_bot
            &&& !start.room.participants.contains_key(u) ==> row.joined_at == now.utc && !row.muted
                && !row.deafened && (row.is_bot <==> u == 1)
        }),
    decreases live.len(),
{
    let some = live.drop_last();
    let u = live[i].user_id;
    lemma_take_in_all(start, some, now);
    lemma_take_in_all(start, live, now);
    let seated = start.take_in_all(some, now);
    let p = live.last();
    if seated.room.participants.contains_key(p.user_id) {
        assert(seated.room.participants[p.user_id].user_id == p.user_id);
    }
    if i < some.len() {
        assert(some[i] == live[i]);
        assert forall|j: int| i < j < some.len() implies (#[trigger] some[j]).user_id != some[i].user_id by {
            assert(live[j].user_id != live[i].user_id);
        }
        lemma_seated(start, some, now, i);
        assert(live[live.len() - 1].user_id != u);
    } else {
        lemma_seated_before(start, some, now, u);
    }
}

/// The row of someone once a list was taken in, whatever the list says of it.
proof fn lemma_seated_before(start: Seating, live: Seq<LiveParticipant>, now: Reading, u: Uuid)
    requires
        start.room.valid(),
    ensures
        ({
            let after = start.take_in_all(live, now).room;
            let row = after.participants[u];
            let was = start.room.participants[u];
            &&& after.participants.contains_key(u) <==> start.room.participants.contains_key(u) || names(
                live,
                u,
            )
            &&& !names(live, u) && start.room.participants.contains_key(u) ==> row == was
            &&& start.room.participants.contains_key(u) ==> row.joined_at == was.joined_at && row.muted
                == was.muted && row.deafened == was.deafened && row.is_bot == was.is_bot
            &&& names(live, u) && !start.room.participants.contains_key(u) ==> row.joined_at == now.utc
                && !row.muted && !row.deafened && (row.is_bot <==> u == 1)
        }),
    decreases live.len(),
{
    lemma_take_in_all(start, live, now);
    assert(live_users(live).contains(u) <==> names(live, u));
    if live.len() > 0 {
        let some = live.drop_last();
        lemma_seated_before(start, some, now, u);
        lemma_take_in_all(start, some, now);
        lemma_live_users_last(live, u);
        assert(live_users(some).contains(u) <==> names(some, u));
        let seated = start.take_in_all(some, now);
        let p = live.last();
        if seated.room.participants.contains_key(p.user_id) {
            assert(seated.room.participants[p.user_id].user_id == p.user_id);
        }
    }
}

/// A reconciliation puts in everyone whom LiveKit lists, each under the session
/// that is listed. A newcomer is neither muted nor deafened, is stamped with
/// the moment, and is a bot only if it is the music bot; of someone who was
/// there all that only this server knows is kept. Of someone who is listed
/// twice the later session counts.
pub proof fn law_listed_are_in(room: RoomModel, channel: Uuid, live: Seq<LiveParticipant>, now: Reading, i: int)
    requires
        room.valid(),
        last_word(live, i),
    ensures
        ({
            let u = live[i].user_id;
            let after = room.reconciled(channel, live, now).0;
            let row = after.participants[u];
            let was = room.participants[u];
            let there = room.participants.contains_key(u);
            &&& after.participants.contains_key(u)
            &&& row.user_id == u
            &&& row.sid == Some(live[i].sid)
            &&& row.provisional_since is None
            &&& there ==> row.joined_at == was.joined_at && row.muted == was.muted && row.deafened
                == was.deafened && row.is_bot == was.is_bot
            &&& !there ==> row.joined_at == now.utc && !row.muted && !row.deafened && (row.is_bot <==> u
                == 1)
        }),
{
    let gone = room.absent(live_users(live), now.mono);
    lemma_without_users_valid(room, gone);
    lemma_goes(room, live, now, live[i].user_id);
    lemma_seated(opening(room, live, now), live, now, i);
}

/// Of those whom LiveKit does not list a reconciliation keeps who is
/// provisional and has been for less than ten seconds, as it is. Everyone else
/// goes, and nobody comes who is not listed.
pub proof fn law_unlisted_go(room: RoomModel, channel: Uuid, live: Seq<LiveParticipant>, now: Reading, u: Uuid)
    requires
        room.valid(),
        !names(live, u),
    ensures
        ({
            let after = room.reconciled(channel, live, now).0;
            let stays = room.participants.contains_key(u) && room.participants[u].provisional_since is Some
                && !overdue(room, u, now.mono);
            &&& after.participants.contains_key(u) <==> stays
            &&& stays ==> after.participants[u] == room.participants[u]
        }),
{
    let gone = room.absent(live_users(live), now.mono);
    lemma_without_users_valid(room, gone);
    lemma_goes(room, live, now, u);
    lemma_seated_before(opening(room, live, now), live, now, u);
}

/// Where the row of a place in the list is found among the rows.
spec fn row_index(live: Seq<LiveParticipant>, i: int, k: int) -> int {
    live_rows(live.take(i)).len() + k
}

/// The rows of a longer list begin with those of a shorter one.
proof fn lemma_rows_prefix(live: Seq<LiveParticipant>, n: int)
    requires
        0 <= n <= live.len(),
    ensures
        live_rows(live.take(n)).len() <= live_rows(live).len(),
        live_rows(live).take(live_rows(live.take(n)).len() as int) == live_rows(live.take(n)),
    decreases live.len() - n,
{
    if n < live.len() {
        lemma_rows_prefix(live, n + 1);
        let longer = live.take(n + 1);
        assert(longer.drop_last() =~= live.take(n));
        let shorter = live_rows(live.take(n));
        assert(live_rows(longer) == shorter + longer.last().rows());
        assert(live_rows(live).take(shorter.len() as int) =~= shorter) by {
            let all = live_rows(live);
            assert(all.take(live_rows(longer).len() as int) == live_rows(longer));
            assert forall|j: int| 0 <= j < shorter.len() implies all[j] == shorter[j] by {
                assert(all[j] == all.take(live_rows(longer).len() as int)[j]);
            }
        }
    } else {
        assert(live.take(n) =~= live);
        assert(live_rows(live).take(live_rows(live).len() as int) =~= live_rows(live));
    }
}

/// The row of a place in the list.
proof fn lemma_row_at(live: Seq<LiveParticipant>, i: int, k: int)
    requires
        0 <= i < live.len(),
        0 <= k < live[i].tracks.len(),
    ensures
        0 <= row_index(live, i, k) < live_rows(live).len(),
        as_listed(live, i, k, live_rows(live)[row_index(live, i, k)]),
{
    lemma_rows_prefix(live, i + 1);
    let longer = live.take(i + 1);
    assert(longer.drop_last() =~= live.take(i));
    let at = row_index(live, i, k);
    let all = live_rows(live);
    assert(longer.last() == live[i]);
    assert(live_rows(longer) == live_rows(live.take(i)) + live[i].rows());
    assert(all[at] == all.take(live_rows(longer).len() as int)[at]);
    assert(all[at] == live[i].rows()[k]);
}

/// Every row is at some place of the list.
proof fn lemma_row_place(live: Seq<LiveParticipant>, at: int) -> (r: (int, int))
    requires
        0 <= at < live_rows(live).len(),
    ensures
        0 <= r.0 < live.len(),
        0 <= r.1 < live[r.0].tracks.len(),
        row_index(live, r.0, r.1) == at,
        as_listed(live, r.0, r.1, live_rows(live)[at]),
    decreases live.len(),
{
    let some = live.drop_last();
    if at < live_rows(some).len() {
        let r = lemma_row_place(some, at);
        assert(some.take(r.0) =~= live.take(r.0));
        assert(some[r.0] == live[r.0]);
        r
    } else {
        let k = at - live_rows(some).len();
        assert(live.take(live.len() - 1) =~= some);
        (live.len() - 1, k)
    }
}

/// A later place in the list has a later row.
proof fn lemma_places_rise(live: Seq<LiveParticipant>, i: int, k: int, j: int, l: int)
    requires
        0 <= i < j < live.len(),
        0 <= k < live[i].tracks.len(),
        0 <= l < live[j].tracks.len(),
    ensures
        row_index(live, i, k) < row_index(live, j, l),
{
    let upto = live.take(j);
    assert(upto.take(i) =~= live.take(i));
    assert(upto[i] == live[i]);
    lemma_row_at(upto, i, k);
}

/// The last row of a SID is the one that counts.
proof fn lemma_by_sid_last(rows: Seq<TrackModel>, at: int)
    requires
        0 <= at < rows.len(),
        forall|j: int| at < j < rows.len() ==> (#[trigger] rows[j]).sid != rows[at].sid,
    ensures
        by_sid(rows).contains_key(rows[at].sid),
        by_sid(rows)[rows[at].sid] == rows[at],
    decreases rows.len(),
{
    let some = rows.drop_last();
    if at < some.len() {
        assert(some[at] == rows[at]);
        assert forall|j: int| at < j < some.len() implies (#[trigger] some[j]).sid != some[at].sid by {
            assert(rows[j].sid != rows[at].sid);
        }
        lemma_by_sid_last(some, at);
        assert(rows[rows.len() - 1].sid != rows[at].sid);
    }
}

/// A SID of the rows is found.
proof fn lemma_by_sid_has(rows: Seq<TrackModel>, at: int)
    requires
        0 <= at < rows.len(),
    ensures
        by_sid(rows).contains_key(rows[at].sid),
    decreases rows.len(),
{
    if at < rows.len() - 1 {
        assert(rows.drop_last()[at] == rows[at]);
        lemma_by_sid_has(rows.drop_last(), at);
    }
}

/// What the list says of a track is what the last place says.
proof fn lemma_listed_last(live: Seq<LiveParticipant>, i: int, k: int, sid: Seq<char>)
    requires
        last_track(live, i, k, sid),
    ensures
        by_sid(live_rows(live)).contains_key(sid),
        as_listed(live, i, k, by_sid(live_rows(live))[sid]),
{
    let rows = live_rows(live);
    let at = row_index(live, i, k);
    lemma_row_at(live, i, k);
    assert forall|j: int| at < j < rows.len() implies (#[trigger] rows[j]).sid != rows[at].sid by {
        let (x, y) = lemma_row_place(live, j);
        if rows[j].sid == rows[at].sid {
            assert(track_at(live, x, y, sid));
            if x < i {
                lemma_places_rise(live, x, y, i, k);
            }
        }
    }
    lemma_by_sid_last(rows, at);
}

proof fn lemma_listed_or_not(live: Seq<LiveParticipant>, sid: Seq<char>)
    ensures
        by_sid(live_rows(live)).contains_key(sid) <==> lists_track(live, sid),
{
    let rows = live_rows(live);
    if by_sid(rows).contains_key(sid) {
        let at = lemma_by_sid_row(rows, sid);
        let (x, y) = lemma_row_place(live, at);
        assert(track_at(live, x, y, sid));
    }
    if lists_track(live, sid) {
        let (i, k) = choose|i: int, k: int| track_at(live, i, k, sid);
        lemma_row_at(live, i, k);
        lemma_by_sid_has(rows, row_index(live, i, k));
    }
}

/// The tracks of a room whose absent participants have gone, and that took in a
/// list, before the tracks are synced.
proof fn lemma_seated_tracks(room: RoomModel, live: Seq<LiveParticipant>, now: Reading, s: Seq<char>)
    requires
        room.valid(),
    ensures
        ({
            let seated = opening(room, live, now).take_in_all(live, now).room;
            &&& seated.tracks.contains_key(s) <==> room.tracks.contains_key(s) && !goes(
                room,
                live,
                now,
                room.tracks[s].owner,
            )
            &&& seated.tracks.contains_key(s) ==> seated.tracks[s] == room.tracks[s]
            &&& seated.is_music_row(s) <==> music_stays(room, live, now, s)
        }),
{
    let gone = room.absent(live_users(live), now.mono);
    lemma_without_users_valid(room, gone);
    lemma_take_in_all(opening(room, live, now), live, now);
    lemma_goes(room, live, now, room.tracks[s].owner);
}

/// Every track that LiveKit lists is in the room after a reconciliation, with
/// the owner, the session, the source and the mute that are listed, whatever
/// the room held before. A music row is left alone. Of a track that is listed
/// twice the later place counts.
pub proof fn law_listed_tracks_are_in(
    room: RoomModel,
    channel: Uuid,
    live: Seq<LiveParticipant>,
    now: Reading,
    i: int,
    k: int,
    sid: Seq<char>,
)
    requires
        room.valid(),
        last_track(live, i, k, sid),
        !music_stays(room, live, now, sid),
    ensures
        ({
            let after = room.reconciled(channel, live, now).0;
            let t = after.tracks[sid];
            &&& after.tracks.contains_key(sid)
            &&& t.sid == sid
            &&& t.owner == live[i].user_id
            &&& t.owner_sid == Some(live[i].sid)
            &&& t.source == live[i].tracks[k].source
            &&& t.muted == live[i].tracks[k].muted
        }),
{
    lemma_listed_last(live, i, k, sid);
    lemma_seated_tracks(room, live, now, sid);
}

/// A reconciliation leaves no track that LiveKit does not list, but for the
/// music rows, which it leaves as they are unless their owner goes.
pub proof fn law_unlisted_tracks_go(
    room: RoomModel,
    channel: Uuid,
    live: Seq<LiveParticipant>,
    now: Reading,
    sid: Seq<char>,
)
    requires
        room.valid(),
    ensures
        ({
            let after = room.reconciled(channel, live, now).0;
            &&& music_stays(room, live, now, sid) ==> after.tracks.contains_key(sid) && after.tracks[sid]
                == room.tracks[sid]
            &&& !lists_track(live, sid) && !music_stays(room, live, now, sid) ==> !after.tracks.contains_key(
                sid,
            )
        }),
{
    lemma_listed_or_not(live, sid);
    lemma_seated_tracks(room, live, now, sid);
}

/// The row of a newcomer.
pub open spec fn newcomer(p: LiveParticipant, now: Reading) -> ParticipantModel {
    ParticipantModel {
        user_id: p.user_id,
        sid: Some(p.sid),
        joined_at: now.utc,
        provisional_since: None,
        muted: false,
        deafened: false,
        is_bot: p.user_id == 1,
    }
}

/// What taking a list in reports, where nobody is listed twice.
proof fn lemma_seating_lists(start: RoomModel, room: RoomModel, live: Seq<LiveParticipant>, now: Reading)
    requires
        each_once(live),
        start.valid(),
        forall|i: int|
            0 <= i < live.len() ==> {
                let u = (#[trigger] live[i]).user_id;
                &&& start.participants.contains_key(u) == room.participants.contains_key(u)
                &&& start.participants.contains_key(u) ==> start.participants[u] == room.participants[u]
            },
    ensures
        ({
            let s = (Seating { room: start, added: Seq::empty(), updated: Seq::empty() }).take_in_all(
                live,
                now,
            );
            &&& s.added == live.filter(
                |p: LiveParticipant| !room.participants.contains_key(p.user_id),
            ).map_values(|p: LiveParticipant| newcomer(p, now))
            &&& s.updated == live.filter(
                |p: LiveParticipant|
                    room.participants.contains_key(p.user_id) && room.participants[p.user_id].sid
                        != Some(p.sid),
            ).map_values(
                |p: LiveParticipant|
                    ParticipantModel {
                        sid: Some(p.sid),
                        provisional_since: None,
                        ..room.participants[p.user_id]
                    },
            )
        }),
    decreases live.len(),
{
    reveal(Seq::filter);
    let base = Seating { room: start, added: Seq::empty(), updated: Seq::empty() };
    if live.len() > 0 {
        let some = live.drop_last();
        assert forall|i: int, j: int| 0 <= i < j < some.len() implies (#[trigger] some[i]).user_id != (
        #[trigger] some[j]).user_id by {
            assert(live[i].user_id != live[j].user_id);
        }
        assert forall|i: int| 0 <= i < some.len() implies {
            let u = (#[trigger] some[i]).user_id;
            &&& start.participants.contains_key(u) == room.participants.contains_key(u)
            &&& start.participants.contains_key(u) ==> start.participants[u] == room.participants[u]
        } by {
            assert(some[i] == live[i]);
        }
        lemma_seating_lists(start, room, some, now);
        let p = live.last();
        assert(p == live[live.len() - 1]);
        assert(!names(some, p.user_id)) by {
            if names(some, p.user_id) {
                let i = choose|i: int| 0 <= i < some.len() && (#[trigger] some[i]).user_id == p.user_id;
                assert(live[i].user_id != live[live.len() - 1].user_id);
            }
        }
        lemma_seated_before(base, some, now, p.user_id);
        let f = |p: LiveParticipant| !room.participants.contains_key(p.user_id);
        let g = |p: LiveParticipant|
            room.participants.contains_key(p.user_id) && room.participants[p.user_id].sid != Some(p.sid);
        let a = |p: LiveParticipant| newcomer(p, now);
        let b = |p: LiveParticipant|
            ParticipantModel {
                sid: Some(p.sid),
                provisional_since: None,
                ..room.participants[p.user_id]
            };
        let s = base.take_in_all(live, now);
        assert(s.added =~= live.filter(f).map_values(a));
        assert(s.updated =~= live.filter(g).map_values(b));
    } else {
        assert(base.take_in_all(live, now).added =~= live.filter(
            |p: LiveParticipant| !room.participants.contains_key(p.user_id),
        ).map_values(|p: LiveParticipant| newcomer(p, now)));
        assert(base.take_in_all(live, now).updated =~= live.filter(
            |p: LiveParticipant|
                room.participants.contains_key(p.user_id) && room.participants[p.user_id].sid
                    != Some(p.sid),
        ).map_values(
            |p: LiveParticipant|
                ParticipantModel {
                    sid: Some(p.sid),
                    provisional_since: None,
                    ..room.participants[p.user_id]
                },
        ));
    }
}

/// What a reconciliation reports of participants: the rows of the newcomers and
/// those of whom it has another session for, in the order of the list, where
/// nobody is listed twice; and who goes, in order.
pub proof fn law_reconcile_reports_people(
    room: RoomModel,
    channel: Uuid,
    live: Seq<LiveParticipant>,
    now: Reading,
    u: Uuid,
)
    requires
        room.valid(),
    ensures
        ({
            let d = room.reconciled(channel, live, now).1;
            &&& d.participants_removed.contains(u) <==> goes(room, live, now, u)
            &&& ids_rise(d.participants_removed)
            &&& each_once(live) ==> {
                &&& d.participants_added == live.filter(
                    |p: LiveParticipant| !room.participants.contains_key(p.user_id),
                ).map_values(|p: LiveParticipant| newcomer(p, now))
                &&& d.participants_updated == live.filter(
                    |p: LiveParticipant|
                        room.participants.contains_key(p.user_id) && room.participants[p.user_id].sid
                            != Some(p.sid),
                ).map_values(
                    |p: LiveParticipant|
                        ParticipantModel {
                            sid: Some(p.sid),
                            provisional_since: None,
                            ..room.participants[p.user_id]
                        },
                )
            }
        }),
{
    let gone = room.absent(live_users(live), now.mono);
    lemma_without_users_valid(room, gone);
    lemma_goes(room, live, now, u);
    vstd::set_lib::lemma_set_subset_finite(room.participants.dom(), gone);
    law_ids_listed(gone, u);
    if each_once(live) {
        let start = room.without_users(gone);
        assert forall|i: int| 0 <= i < live.len() implies {
            let v = (#[trigger] live[i]).user_id;
            &&& start.participants.contains_key(v) == room.participants.contains_key(v)
            &&& start.participants.contains_key(v) ==> start.participants[v] == room.participants[v]
        } by {
            lemma_goes(room, live, now, live[i].user_id);
        }
        lemma_seating_lists(start, room, live, now);
    }
}

/// What a reconciliation reports of tracks: as removed, those of who goes and
/// those that LiveKit does not list, but for music rows that stay; as added,
/// each listed track that the room lacked or had otherwise, as it is now.
pub proof fn law_reconcile_reports_tracks(
    room: RoomModel,
    channel: Uuid,
    live: Seq<LiveParticipant>,
    now: Reading,
    s: Seq<char>,
    t: TrackModel,
)
    requires
        room.valid(),
    ensures
        ({
            let (after, d) = room.reconciled(channel, live, now);
            let was = room.tracks[s];
            let leaves = room.tracks.contains_key(s) && goes(room, live, now, was.owner);
            &&& d.tracks_removed.contains(s) <==> leaves || (room.tracks.contains_key(s)
                && !lists_track(live, s) && was.source != TrackSource::Music)
            &&& d.tracks_added.contains(t) <==> {
                &&& after.tracks.contains_key(t.sid)
                &&& after.tracks[t.sid] == t
                &&& lists_track(live, t.sid)
                &&& !music_stays(room, live, now, t.sid)
                &&& !room.tracks.contains_key(t.sid) || room.tracks[t.sid] != t || goes(
                    room,
                    live,
                    now,
                    room.tracks[t.sid].owner,
                )
            }
            &&& forall|i: int, j: int|
                0 <= i < j < d.tracks_added.len() ==> lex_lt(
                    (#[trigger] d.tracks_added[i]).sid,
                    (#[trigger] d.tracks_added[j]).sid,
                )
        }),
{
    let gone = room.absent(live_users(live), now.mono);
    let seated = opening(room, live, now).take_in_all(live, now).room;
    let listed = by_sid(live_rows(live));
    let (after, d) = room.reconciled(channel, live, now);
    lemma_without_users_valid(room, gone);
    lemma_take_in_all(opening(room, live, now), live, now);
    lemma_by_sid_finite(live_rows(live));
    let owned = room.owned_by(gone);
    let stale = seated.unlisted(listed);
    let fresh = seated.unsynced(listed);
    vstd::set_lib::lemma_set_subset_finite(room.tracks.dom(), owned);
    vstd::set_lib::lemma_set_subset_finite(seated.tracks.dom(), stale);
    vstd::set_lib::lemma_set_subset_finite(listed.dom(), fresh);
    lemma_seated_tracks(room, live, now, s);
    lemma_listed_or_not(live, s);
    lemma_goes(room, live, now, room.tracks[s].owner);
    law_texts_listed(owned, s);
    law_texts_listed(stale, s);
    let (a, b) = (crate::listing::sorted_texts(owned), crate::listing::sorted_texts(stale));
    assert(d.tracks_removed == a + b);
    assert(d.tracks_removed.contains(s) <==> a.contains(s) || b.contains(s)) by {
        if a.contains(s) {
            let i = choose|i: int| 0 <= i < a.len() && a[i] == s;
            assert((a + b)[i] == s);
        }
        if b.contains(s) {
            let i = choose|i: int| 0 <= i < b.len() && b[i] == s;
            assert((a + b)[a.len() + i] == s);
        }
        if (a + b).contains(s) {
            let i = choose|i: int| 0 <= i < (a + b).len() && (a + b)[i] == s;
            if i < a.len() {
                assert(a[i] == s);
            } else {
                assert(b[i - a.len()] == s);
            }
        }
    }
    let sid = t.sid;
    lemma_seated_tracks(room, live, now, sid);
    lemma_listed_or_not(live, sid);
    lemma_goes(room, live, now, room.tracks[sid].owner);
    law_texts_listed(fresh, sid);
    let c = crate::listing::sorted_texts(fresh);
    let f = |x: Seq<char>| after.tracks[x];
    assert(d.tracks_added =~= c.map_values(f));
    assert forall|i: int| 0 <= i < d.tracks_added.len() implies (#[trigger] d.tracks_added[i]).sid == c[i] by {
        assert(c.contains(c[i]));
        law_texts_listed(fresh, c[i]);
        lemma_seated_tracks(room, live, now, c[i]);
        let at = lemma_by_sid_row(live_rows(live), c[i]);
        assert(after.tracks[c[i]].sid == c[i]);
    }
    if c.contains(sid) && after.tracks[sid] == t {
        let i = choose|i: int| 0 <= i < c.len() && c[i] == sid;
        assert(d.tracks_added[i] == t);
    }
    if d.tracks_added.contains(t) {
        let i = choose|i: int| 0 <= i < d.tracks_added.len() && d.tracks_added[i] == t;
        assert(c.contains(c[i]));
        law_texts_listed(fresh, c[i]);
        lemma_seated_tracks(room, live, now, c[i]);
        let at = lemma_by_sid_row(live_rows(live), c[i]);
        assert(after.tracks[c[i]].sid == c[i]);
    }
}

/// A reconciliation counts one version where it has anything to report, and
/// none where it has not, and marks the moment.
pub proof fn law_reconcile_counts(room: RoomModel, channel: Uuid, live: Seq<LiveParticipant>, now: Reading)
    ensures
        ({
            let (after, d) = room.reconciled(channel, live, now);
            let quiet = d.participants_added.len() == 0 && d.participants_updated.len() == 0
                && d.participants_removed.len() == 0 && d.tracks_added.len() == 0
                && d.tracks_removed.len() == 0;
            &&& after.reconciled_at == Some(now.mono)
            &&& leads(d, channel, room.version, after.version, ChangeReason::ReconcileAdded)
            &&& after.version == room.version + if quiet {
                0int
            } else {
                1int
            }
        }),
{
}

} // verus!
