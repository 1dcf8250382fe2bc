//! What each operation on a room is for, said of its rows and of its report.

use vstd::prelude::*;

use crate::clock::Reading;
use crate::ident::{uuid_text, Uuid};
use crate::listing::{
    id_order, lemma_is_listing, lemma_listing_exists, lemma_text_order, sorted_ids, sorted_texts,
    text_order,
};
use crate::text::lex_lt;
use crate::voice::model::{ChangeModel, RoomModel};
use crate::voice::types::{ChangeReason, HintError, TrackSource};

verus! {

/// Does `d` lead `channel` from one version to another, for `reason`?
pub open spec fn leads(d: ChangeModel, channel: Uuid, from: nat, to: nat, reason: ChangeReason) -> bool {
    &&& d.channel_id == channel
    &&& d.version_before == from
    &&& d.version_after == to
    &&& d.reason == reason
    &&& !d.room_closed
}

/// Does `d` report nothing of participants?
pub open spec fn nobody_reported(d: ChangeModel) -> bool {
    &&& d.participants_added.len() == 0
    &&& d.participants_updated.len() == 0
    &&& d.participants_removed.len() == 0
}

/// Does `d` report nothing of tracks?
pub open spec fn no_track_reported(d: ChangeModel) -> bool {
    d.tracks_added.len() == 0 && d.tracks_removed.len() == 0
}

/// Does each identifier come before every later one?
pub open spec fn ids_rise(s: Seq<Uuid>) -> bool {
    forall|i: int, j: int| 0 <= i < j < s.len() ==> #[trigger] s[i] < #[trigger] s[j]
}

/// Does each text come before every later one?
pub open spec fn texts_rise(s: Seq<Seq<char>>) -> bool {
    forall|i: int, j: int| 0 <= i < j < s.len() ==> lex_lt(#[trigger] s[i], #[trigger] s[j])
}

/// The identifiers of a finite set come in order, each of them, and no other.
pub proof fn law_ids_listed(set: Set<Uuid>, u: Uuid)
    requires
        set.finite(),
    ensures
        sorted_ids(set).contains(u) <==> set.contains(u),
        ids_rise(sorted_ids(set)),
{
    lemma_listing_exists(set, id_order());
    let s = sorted_ids(set);
    let lt = id_order();
    assert forall|i: int, j: int| 0 <= i < j < s.len() implies #[trigger] s[i] < #[trigger] s[j] by {
        assert(lt(s[i], s[j]));
    }
}

/// The texts of a finite set come in order, each of them, and no other.
pub proof fn law_texts_listed(set: Set<Seq<char>>, t: Seq<char>)
    requires
        set.finite(),
    ensures
        sorted_texts(set).contains(t) <==> set.contains(t),
        texts_rise(sorted_texts(set)),
{
    lemma_text_order();
    lemma_listing_exists(set, text_order());
    let s = sorted_texts(set);
    let lt = text_order();
    assert forall|i: int, j: int| 0 <= i < j < s.len() implies lex_lt(#[trigger] s[i], #[trigger] s[j]) by {
        assert(lt(s[i], s[j]));
    }
}

/// One identifier is listed as itself.
proof fn lemma_one_id(u: Uuid)
    ensures
        sorted_ids(set![u]) == seq![u],
{
    assert(seq![u].contains(u)) by {
        assert(seq![u][0] == u);
    }
    lemma_is_listing(seq![u], set![u], id_order());
}

/// A join: the row of the user has the session that LiveKit names. A newcomer
/// is neither muted nor deafened, is stamped with the moment, and is a bot only
/// if it is the music bot; of someone who was there all else is kept. Every
/// other row is as it was, and the report has the row, unless the session was
/// known.
pub proof fn law_join(room: RoomModel, channel: Uuid, user: Uuid, sid: Seq<char>, now: Reading)
    requires
        room.valid(),
    ensures
        ({
            let (after, d) = room.joined(channel, user, sid, now);
            let row = after.participants[user];
            let was = room.participants[user];
            let there = room.participants.contains_key(user);
            let known = there && was.sid == Some(sid);
            &&& after.participants == room.participants.insert(user, row)
            &&& row.user_id == user
            &&& row.sid == Some(sid)
            &&& row.provisional_since is None
            &&& !there ==> row.joined_at == now.utc && !row.muted && !row.deafened && (row.is_bot <==> user
                == 1)
            &&& there ==> row.joined_at == was.joined_at && row.muted == was.muted && row.deafened
                == was.deafened && row.is_bot == was.is_bot
            &&& after.tracks == room.tracks
            &&& after.reconciled_at == room.reconciled_at
            &&& after.version == room.version + if known {
                0int
            } else {
                1int
            }
            &&& leads(d, channel, room.version, after.version, ChangeReason::WebhookParticipantJoined)
            &&& known ==> nobody_reported(d)
            &&& !there ==> d.participants_added == seq![row] && d.participants_updated.len() == 0
            &&& there && !known ==> d.participants_added.len() == 0 && d.participants_updated == seq![row]
            &&& d.participants_removed.len() == 0
            &&& no_track_reported(d)
        }),
{
    let (after, d) = room.joined(channel, user, sid, now);
    assert(after.participants =~= room.participants.insert(user, after.participants[user]));
}

/// What it takes for `users` to go: their rows and their tracks, and nothing
/// else, and the report names each of them, in order.
spec fn took_out(room: RoomModel, after: RoomModel, d: ChangeModel, users: Set<Uuid>) -> bool {
    &&& forall|u: Uuid| #[trigger]
        after.participants.contains_key(u) <==> room.participants.contains_key(u) && !users.contains(u)
    &&& forall|u: Uuid| #[trigger]
        after.participants.contains_key(u) ==> after.participants[u] == room.participants[u]
    &&& forall|s: Seq<char>| #[trigger]
        after.tracks.contains_key(s) <==> room.tracks.contains_key(s) && !users.contains(
            room.tracks[s].owner,
        )
    &&& forall|s: Seq<char>| #[trigger]
        after.tracks.contains_key(s) ==> after.tracks[s] == room.tracks[s]
    &&& after.version == room.version + 1
    &&& after.reconciled_at == room.reconciled_at
    &&& d.participants_added.len() == 0
    &&& d.participants_updated.len() == 0
    &&& d.tracks_added.len() == 0
    &&& forall|u: Uuid| #[trigger] d.participants_removed.contains(u) <==> users.contains(u)
    &&& ids_rise(d.participants_removed)
    &&& forall|s: Seq<char>| #[trigger]
        d.tracks_removed.contains(s) <==> room.tracks.contains_key(s) && users.contains(
            room.tracks[s].owner,
        )
    &&& texts_rise(d.tracks_removed)
}

proof fn lemma_took_out(room: RoomModel, channel: Uuid, users: Set<Uuid>, reason: ChangeReason)
    requires
        room.valid(),
        users.finite(),
    ensures
        ({
            let (after, d) = room.removing(channel, users, reason);
            took_out(room, after, d, users) && leads(d, channel, room.version, room.version + 1, reason)
        }),
{
    let (after, d) = room.removing(channel, users, reason);
    let owned = room.owned_by(users);
    vstd::set_lib::lemma_set_subset_finite(room.tracks.dom(), owned);
    assert forall|u: Uuid| #[trigger] d.participants_removed.contains(u) <==> users.contains(u) by {
        law_ids_listed(users, u);
    }
    law_ids_listed(users, 0);
    assert forall|s: Seq<char>| #[trigger]
        d.tracks_removed.contains(s) <==> room.tracks.contains_key(s) && users.contains(
            room.tracks[s].owner,
        ) by {
        law_texts_listed(owned, s);
    }
    law_texts_listed(owned, Seq::empty());
}

/// A leave: the end of the session that the row has takes out that row and
/// every track of its user, and nothing else, and the report names them. Any
/// other session's end does nothing.
pub proof fn law_leave(room: RoomModel, channel: Uuid, user: Uuid, sid: Seq<char>, s: Seq<char>)
    requires
        room.valid(),
    ensures
        ({
            let (after, d) = room.left(channel, user, sid);
            let reason = ChangeReason::WebhookParticipantLeft;
            let current = room.participants.contains_key(user) && room.participants[user].sid == Some(sid);
            &&& !current ==> after == room && nobody_reported(d) && no_track_reported(d) && leads(
                d,
                channel,
                room.version,
                room.version,
                reason,
            )
            &&& current ==> {
                &&& after.participants == room.participants.remove(user)
                &&& after.tracks.contains_key(s) <==> room.tracks.contains_key(s) && room.tracks[s].owner
                    != user
                &&& after.tracks.contains_key(s) ==> after.tracks[s] == room.tracks[s]
                &&& after.reconciled_at == room.reconciled_at
                &&& after.version == room.version + 1
                &&& leads(d, channel, room.version, room.version + 1, reason)
                &&& d.participants_removed == seq![user]
                &&& d.tracks_removed.contains(s) <==> room.tracks.contains_key(s) && room.tracks[s].owner
                    == user
                &&& texts_rise(d.tracks_removed)
                &&& d.participants_added.len() == 0
                &&& d.participants_updated.len() == 0
                &&& d.tracks_added.len() == 0
            }
        }),
{
    let (after, d) = room.left(channel, user, sid);
    if room.participants.contains_key(user) && room.participants[user].sid == Some(sid) {
        lemma_took_out(room, channel, set![user], ChangeReason::WebhookParticipantLeft);
        lemma_one_id(user);
        assert(after.participants =~= room.participants.remove(user));
    }
}

/// A publication: a track that the room lacks is put in with the owner and the
/// source that LiveKit names, not muted, under the session that LiveKit names
/// or else the one of the owner's row. An owner who is not there comes with it.
/// Every other row is as it was, and the report has what came. A track that the
/// room has is left alone.
pub proof fn law_publish(
    room: RoomModel,
    channel: Uuid,
    user: Uuid,
    session: Option<Seq<char>>,
    sid: Seq<char>,
    source: TrackSource,
    now: Reading,
)
    requires
        room.valid(),
    ensures
        ({
            let (after, d) = room.published(channel, user, session, sid, source, now);
            let t = after.tracks[sid];
            let row = after.participants[user];
            let there = room.participants.contains_key(user);
            let reason = ChangeReason::WebhookTrackPublished;
            &&& room.tracks.contains_key(sid) ==> after == room && nobody_reported(d) && no_track_reported(d)
                && leads(d, channel, room.version, room.version, reason)
            &&& !room.tracks.contains_key(sid) ==> {
                &&& after.tracks == room.tracks.insert(sid, t)
                &&& t.sid == sid
                &&& t.owner == user
                &&& t.source == source
                &&& !t.muted
                &&& session is Some ==> t.owner_sid == session
                &&& session is None && there ==> t.owner_sid == room.participants[user].sid
                &&& session is None && !there ==> t.owner_sid is None
                &&& d.tracks_added == seq![t]
                &&& d.tracks_removed.len() == 0
                &&& d.participants_updated.len() == 0
                &&& d.participants_removed.len() == 0
                &&& after.reconciled_at == room.reconciled_at
                &&& leads(d, channel, room.version, after.version, reason)
                &&& there ==> {
                    &&& after.participants == room.participants
                    &&& d.participants_added.len() == 0
                    &&& after.version == room.version + 1
                }
                &&& !there ==> {
                    &&& after.participants == room.participants.insert(user, row)
                    &&& row.user_id == user
                    &&& row.sid == session
                    &&& row.joined_at == now.utc
                    &&& session is Some ==> row.provisional_since is None
                    &&& session is None ==> row.provisional_since == Some(now.mono)
                    &&& !row.muted
                    &&& !row.deafened
                    &&& row.is_bot <==> user == 1
                    &&& d.participants_added == seq![row]
                    &&& after.version == room.version + 2
                }
            }
        }),
{
}

/// The end of a publication takes out the track of that SID, and nothing else.
pub proof fn law_unpublish(room: RoomModel, channel: Uuid, sid: Seq<char>)
    ensures
        ({
            let (after, d) = room.unpublished(channel, sid);
            let there = room.tracks.contains_key(sid);
            &&& after.tracks == room.tracks.remove(sid)
            &&& after.participants == room.participants
            &&& after.reconciled_at == room.reconciled_at
            &&& after.version == room.version + if there {
                1int
            } else {
                0int
            }
            &&& leads(d, channel, room.version, after.version, ChangeReason::WebhookTrackUnpublished)
            &&& nobody_reported(d)
            &&& d.tracks_added.len() == 0
            &&& d.tracks_removed == if there {
                seq![sid]
            } else {
                Seq::empty()
            }
        }),
{
    assert(room.unpublished(channel, sid).0.tracks =~= room.tracks.remove(sid));
}

/// Muting a track: a track that is there is muted or not as LiveKit says, and
/// its owner, session and source are kept, and so is all else. Where that is
/// news the report has the whole row.
pub proof fn law_mute_track(room: RoomModel, channel: Uuid, sid: Seq<char>, muted: bool)
    requires
        room.valid(),
    ensures
        ({
            let (after, d) = room.track_muted(channel, sid, muted);
            let was = room.tracks[sid];
            let t = after.tracks[sid];
            let there = room.tracks.contains_key(sid);
            let news = there && was.muted != muted;
            &&& after.participants == room.participants
            &&& after.reconciled_at == room.reconciled_at
            &&& !there ==> after.tracks == room.tracks
            &&& there ==> {
                &&& after.tracks == room.tracks.insert(sid, t)
                &&& t.muted == muted
                &&& t.sid == sid
                &&& t.owner == was.owner
                &&& t.owner_sid == was.owner_sid
                &&& t.source == was.source
            }
            &&& after.version == room.version + if news {
                1int
            } else {
                0int
            }
            &&& leads(d, channel, room.version, after.version, ChangeReason::WebhookTrackMuted)
            &&& nobody_reported(d)
            &&& d.tracks_removed.len() == 0
            &&& d.tracks_added == if news {
                seq![t]
            } else {
                Seq::empty()
            }
        }),
{
    let (after, d) = room.track_muted(channel, sid, muted);
    if room.tracks.contains_key(sid) {
        assert(after.tracks =~= room.tracks.insert(sid, after.tracks[sid]));
    }
}

/// A hint of joining: a newcomer gets a row, provisional from this moment
/// unless it names a session; a provisional row takes the session that is
/// named; any other row is as it was.
pub proof fn law_hint_join(
    room: RoomModel,
    channel: Uuid,
    user: Uuid,
    sid: Option<Seq<char>>,
    is_bot: bool,
    now: Reading,
)
    requires
        room.valid(),
    ensures
        ({
            let (after, d) = room.hint_joined(channel, user, sid, is_bot, now);
            let row = after.participants[user];
            let was = room.participants[user];
            let there = room.participants.contains_key(user);
            let confirms = there && was.sid is None && sid is Some;
            &&& after.participants == room.participants.insert(user, row)
            &&& row.user_id == user
            &&& !there ==> {
                &&& row.sid == sid
                &&& row.joined_at == now.utc
                &&& sid is None ==> row.provisional_since == Some(now.mono)
                &&& sid is Some ==> row.provisional_since is None
                &&& !row.muted
                &&& !row.deafened
                &&& row.is_bot <==> is_bot || user == 1
            }
            &&& confirms ==> {
                &&& row.sid == sid
                &&& row.provisional_since is None
                &&& row.joined_at == was.joined_at
                &&& row.muted == was.muted
                &&& row.deafened == was.deafened
                &&& row.is_bot == was.is_bot
            }
            &&& there && !confirms ==> row == was
            &&& after.tracks == room.tracks
            &&& after.reconciled_at == room.reconciled_at
            &&& after.version == room.version + if !there || confirms {
                1int
            } else {
                0int
            }
            &&& leads(d, channel, room.version, after.version, ChangeReason::WsPresenceHint)
            &&& d.participants_added == if there {
                Seq::empty()
            } else {
                seq![row]
            }
            &&& d.participants_updated == if confirms {
                seq![row]
            } else {
                Seq::empty()
            }
            &&& d.participants_removed.len() == 0
            &&& no_track_reported(d)
        }),
{
    let (after, d) = room.hint_joined(channel, user, sid, is_bot, now);
    assert(after.participants =~= room.participants.insert(user, after.participants[user]));
}

/// A hint of leaving takes out a provisional row with its tracks, and nothing
/// else; a confirmed one stays.
pub proof fn law_hint_leave(room: RoomModel, channel: Uuid, user: Uuid, s: Seq<char>)
    requires
        room.valid(),
    ensures
        ({
            let (after, d) = room.hint_left(channel, user);
            let reason = ChangeReason::WsPresenceHint;
            let goes = room.participants.contains_key(user) && room.participants[user].sid is None;
            &&& !goes ==> after == room && nobody_reported(d) && no_track_reported(d) && leads(
                d,
                channel,
                room.version,
                room.version,
                reason,
            )
            &&& goes ==> {
                &&& after.participants == room.participants.remove(user)
                &&& after.tracks.contains_key(s) <==> room.tracks.contains_key(s) && room.tracks[s].owner
                    != user
                &&& after.tracks.contains_key(s) ==> after.tracks[s] == room.tracks[s]
                &&& after.reconciled_at == room.reconciled_at
                &&& after.version == room.version + 1
                &&& leads(d, channel, room.version, room.version + 1, reason)
                &&& d.participants_removed == seq![user]
                &&& d.tracks_removed.contains(s) <==> room.tracks.contains_key(s) && room.tracks[s].owner
                    == user
                &&& texts_rise(d.tracks_removed)
                &&& d.participants_added.len() == 0
                &&& d.participants_updated.len() == 0
                &&& d.tracks_added.len() == 0
            }
            &&& room.has_confirmed(user) <==> room.participants.contains_key(user)
                && room.participants[user].sid is Some
        }),
{
    let (after, d) = room.hint_left(channel, user);
    if room.participants.contains_key(user) && room.participants[user].sid is None {
        lemma_took_out(room, channel, set![user], ChangeReason::WsPresenceHint);
        lemma_one_id(user);
        assert(after.participants =~= room.participants.remove(user));
    }
}

/// A hint of publishing: who is in the room puts in a track that the room
/// lacks, as its own, under its own session, with the source that it names, not
/// muted. A track that the room has is left alone, and who is not in the room
/// is refused.
pub proof fn law_hint_publish(room: RoomModel, channel: Uuid, user: Uuid, sid: Seq<char>, source: TrackSource)
    ensures
        ({
            let hinted = room.hint_published(channel, user, sid, source);
            let there = room.participants.contains_key(user);
            &&& hinted is Ok <==> there
            &&& !there ==> hinted->Err_0 == HintError::NotInCall
            &&& there ==> {
                let (after, d) = hinted->Ok_0;
                let t = after.tracks[sid];
                let reason = ChangeReason::WsTrackHint;
                &&& after.participants == room.participants
                &&& after.reconciled_at == room.reconciled_at
                &&& nobody_reported(d)
                &&& d.tracks_removed.len() == 0
                &&& leads(d, channel, room.version, after.version, reason)
                &&& room.tracks.contains_key(sid) ==> after == room && d.tracks_added.len() == 0
                &&& !room.tracks.contains_key(sid) ==> {
                    &&& after.tracks == room.tracks.insert(sid, t)
                    &&& t.sid == sid
                    &&& t.owner == user
                    &&& t.owner_sid == room.participants[user].sid
                    &&& t.source == source
                    &&& !t.muted
                    &&& after.version == room.version + 1
                    &&& d.tracks_added == seq![t]
                }
            }
        }),
{
}

/// A hint of taking a track down: the owner takes out that track, and nothing
/// else; anyone else is refused.
pub proof fn law_hint_unpublish(room: RoomModel, channel: Uuid, user: Uuid, sid: Seq<char>)
    ensures
        ({
            let hinted = room.hint_unpublished(channel, user, sid);
            let there = room.tracks.contains_key(sid);
            let owned = there && room.tracks[sid].owner == user;
            &&& hinted is Ok <==> owned
            &&& !there ==> hinted->Err_0 == HintError::TrackNotFound
            &&& there && !owned ==> hinted->Err_0 == HintError::NotTrackOwner
            &&& owned ==> {
                let (after, d) = hinted->Ok_0;
                &&& after.tracks == room.tracks.remove(sid)
                &&& after.participants == room.participants
                &&& after.reconciled_at == room.reconciled_at
                &&& after.version == room.version + 1
                &&& leads(d, channel, room.version, after.version, ChangeReason::WsTrackHint)
                &&& nobody_reported(d)
                &&& d.tracks_added.len() == 0
                &&& d.tracks_removed == seq![sid]
            }
        }),
{
}

/// Muting and deafening oneself: who is in the room is muted as it says, or as
/// it was where it does not say, and deafened likewise; nothing else of its row
/// changes, and nothing else of the room. Where that is news the report has the
/// row.
pub proof fn law_set_audio(
    room: RoomModel,
    channel: Uuid,
    user: Uuid,
    muted: Option<bool>,
    deafened: Option<bool>,
)
    requires
        room.valid(),
    ensures
        ({
            let set = room.audio_set(channel, user, muted, deafened);
            let there = room.participants.contains_key(user);
            let was = room.participants[user];
            &&& set is Ok <==> there
            &&& !there ==> set->Err_0 == HintError::NotInCall
            &&& there ==> {
                let (after, d) = set->Ok_0;
                let row = after.participants[user];
                let news = (muted is Some && muted->0 != was.muted) || (deafened is Some && deafened->0
                    != was.deafened);
                &&& after.participants == room.participants.insert(user, row)
                &&& muted is Some ==> row.muted == muted->0
                &&& muted is None ==> row.muted == was.muted
                &&& deafened is Some ==> row.deafened == deafened->0
                &&& deafened is None ==> row.deafened == was.deafened
                &&& row.user_id == user
                &&& row.sid == was.sid
                &&& row.joined_at == was.joined_at
                &&& row.provisional_since == was.provisional_since
                &&& row.is_bot == was.is_bot
                &&& after.tracks == room.tracks
                &&& after.reconciled_at == room.reconciled_at
                &&& after.version == room.version + if news {
                    1int
                } else {
                    0int
                }
                &&& leads(d, channel, room.version, after.version, ChangeReason::WsStateUpdate)
                &&& d.participants_updated == if news {
                    seq![row]
                } else {
                    Seq::empty()
                }
                &&& d.participants_added.len() == 0
                &&& d.participants_removed.len() == 0
                &&& no_track_reported(d)
            }
        }),
{
    if room.participants.contains_key(user) {
        let (after, d) = room.audio_set(channel, user, muted, deafened)->Ok_0;
        assert(after.participants =~= room.participants.insert(user, after.participants[user]));
    }
}

/// The music row: while the bot plays the room has a track that is named after
/// its channel, that the bot owns, of the music source, without a session and
/// not muted; when it stops the room has none. Nothing else changes.
pub proof fn law_set_music(room: RoomModel, channel: Uuid, playing: bool)
    ensures
        ({
            let (after, d) = room.music_set(channel, playing);
            let sid = "music:"@ + uuid_text(channel);
            let was = room.tracks.contains_key(sid);
            let t = after.tracks[sid];
            &&& after.participants == room.participants
            &&& after.reconciled_at == room.reconciled_at
            &&& nobody_reported(d)
            &&& leads(d, channel, room.version, after.version, ChangeReason::WsTrackHint)
            &&& playing == was ==> after == room && no_track_reported(d)
            &&& playing && !was ==> {
                &&& after.tracks == room.tracks.insert(sid, t)
                &&& t.sid == sid
                &&& t.owner == 1
                &&& t.owner_sid is None
                &&& t.source == TrackSource::Music
                &&& !t.muted
                &&& after.version == room.version + 1
                &&& d.tracks_added == seq![t]
                &&& d.tracks_removed.len() == 0
            }
            &&& !playing && was ==> {
                &&& after.tracks == room.tracks.remove(sid)
                &&& after.version == room.version + 1
                &&& d.tracks_added.len() == 0
                &&& d.tracks_removed == seq![sid]
            }
        }),
{
}

/// Has the row of `user` been provisional for ten seconds or longer?
pub open spec fn overdue(room: RoomModel, user: Uuid, now: i128) -> bool {
    &&& room.participants.contains_key(user)
    &&& room.participants[user].provisional_since is Some
    &&& now - room.participants[user].provisional_since->0 >= 10_000_000_000
}

/// Expiry takes out the rows that have been provisional for ten seconds or
/// longer, with their tracks, and nothing else, and the report names them.
pub proof fn law_expire(room: RoomModel, channel: Uuid, now: i128, u: Uuid, s: Seq<char>)
    requires
        room.valid(),
    ensures
        ({
            let (after, d) = room.expired(channel, now);
            &&& after.participants.contains_key(u) <==> room.participants.contains_key(u) && !overdue(
                room,
                u,
                now,
            )
            &&& after.participants.contains_key(u) ==> after.participants[u] == room.participants[u]
            &&& after.tracks.contains_key(s) <==> room.tracks.contains_key(s) && !overdue(
                room,
                room.tracks[s].owner,
                now,
            )
            &&& after.tracks.contains_key(s) ==> after.tracks[s] == room.tracks[s]
            &&& after.reconciled_at == room.reconciled_at
            &&& after.version == room.version + 1
            &&& leads(d, channel, room.version, after.version, ChangeReason::ProvisionalExpired)
            &&& d.participants_removed.contains(u) <==> overdue(room, u, now)
            &&& ids_rise(d.participants_removed)
            &&& d.tracks_removed.contains(s) <==> room.tracks.contains_key(s) && overdue(
                room,
                room.tracks[s].owner,
                now,
            )
            &&& texts_rise(d.tracks_removed)
            &&& d.participants_added.len() == 0
            &&& d.participants_updated.len() == 0
            &&& d.tracks_added.len() == 0
            &&& room.expired_at(now).contains(u) <==> overdue(room, u, now)
        }),
{
    let users = room.expired_at(now);
    vstd::set_lib::lemma_set_subset_finite(room.participants.dom(), users);
    assert forall|v: Uuid| #[trigger] users.contains(v) <==> overdue(room, v, now) by {}
    lemma_took_out(room, channel, users, ChangeReason::ProvisionalExpired);
}

/// Closing a room leaves nobody and nothing in it, and the report names
/// everyone and everything that was there.
pub proof fn law_close(room: RoomModel, channel: Uuid, reason: ChangeReason, u: Uuid, s: Seq<char>)
    requires
        room.valid(),
    ensures
        ({
            let (after, d) = room.closed(channel, reason);
            &&& !after.participants.contains_key(u)
            &&& !after.tracks.contains_key(s)
            &&& after.version == room.version + 1
            &&& leads(d, channel, room.version, after.version, reason)
            &&& d.participants_removed.contains(u) <==> room.participants.contains_key(u)
            &&& ids_rise(d.participants_removed)
            &&& d.tracks_removed.contains(s) <==> room.tracks.contains_key(s)
            &&& texts_rise(d.tracks_removed)
            &&& d.participants_added.len() == 0
            &&& d.participants_updated.len() == 0
            &&& d.tracks_added.len() == 0
        }),
{
    law_ids_listed(room.participants.dom(), u);
    law_texts_listed(room.tracks.dom(), s);
}

/// Who joined elsewhere is taken out, confirmed or not, with its tracks, and
/// nobody else is.
pub proof fn law_evict(room: RoomModel, channel: Uuid, user: Uuid, s: Seq<char>)
    requires
        room.valid(),
        room.participants.contains_key(user),
    ensures
        ({
            let (after, d) = room.evicted(channel, user);
            &&& after.participants == room.participants.remove(user)
            &&& after.tracks.contains_key(s) <==> room.tracks.contains_key(s) && room.tracks[s].owner != user
            &&& after.tracks.contains_key(s) ==> after.tracks[s] == room.tracks[s]
            &&& after.version == room.version + 1
            &&& leads(
                d,
                channel,
                room.version,
                after.version,
                if room.participants[user].sid is Some {
                    ChangeReason::WebhookParticipantLeft
                } else {
                    ChangeReason::WsPresenceHint
                },
            )
            &&& d.participants_removed == seq![user]
            &&& d.tracks_removed.contains(s) <==> room.tracks.contains_key(s) && room.tracks[s].owner == user
        }),
{
    match room.participants[user].sid {
        Some(sid) => law_leave(room, channel, user, sid, s),
        None => law_hint_leave(room, channel, user, s),
    }
}

/// Who counts toward the capacity: everyone who is confirmed and is not a bot,
/// and nobody else. Nobody is in the room where it has no row.
pub proof fn law_capacity_counts(room: RoomModel, counted: Set<Uuid>)
    requires
        forall|u: Uuid| #[trigger]
            counted.contains(u) <==> room.participants.contains_key(u) && room.participants[u].sid is Some
                && !room.participants[u].is_bot,
    ensures
        room.human_count() == counted.len(),
        room.deserted() <==> forall|u: Uuid| !room.participants.contains_key(u),
{
    assert(room.participants.dom().filter(|u: Uuid| room.participants[u].is_counted()) =~= counted);
    if forall|u: Uuid| !room.participants.contains_key(u) {
        assert forall|u: Uuid| !room.participants.dom().contains(u) by {
            assert(!room.participants.contains_key(u));
        }
    }
    if room.deserted() {
        assert forall|u: Uuid| !room.participants.contains_key(u) by {
            assert(!room.participants.dom().contains(u));
        }
    }
}

} // verus!
