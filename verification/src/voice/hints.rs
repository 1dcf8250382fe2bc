//! What clients say, and what only this server knows. A hint has no authority
//! over confirmed presence.

use vstd::prelude::*;

use crate::clock::Reading;
use crate::ident::Uuid;
use crate::text::optional_text;
use crate::voice::model::RegistryModel;
use crate::voice::registry::VoiceRegistry;
use crate::voice::room::VoiceRoom;
use crate::voice::types::{
    ChannelId, HintError, ParticipantSid, RoomChange, TrackSid, TrackSource, UserId,
};
use crate::voice::validity::{
    lemma_audio_set_valid, lemma_hint_joined_valid, lemma_hint_left_valid,
    lemma_hint_published_valid, lemma_hint_unpublished_valid, lemma_music_set_valid,
    lemma_opened_valid, lemma_put_back, lemma_put_back_settled, lemma_settled_valid,
    lemma_stored_valid,
};

verus! {

/// To store the room that a channel has is to do nothing.
proof fn lemma_store_same(m: RegistryModel, channel: Uuid)
    requires
        m.rooms.contains_key(channel),
    ensures
        m.stored(channel, m.rooms[channel]) == m,
{
    assert(m.stored(channel, m.rooms[channel]).rooms =~= m.rooms);
}

impl VoiceRegistry {
    /// Puts a provisional row in, or a confirmed one where the client knows
    /// its session. A confirmed row is never replaced.
    pub fn hint_joining(
        &mut self,
        channel_id: ChannelId,
        user_id: UserId,
        sid: Option<ParticipantSid>,
        is_bot: bool,
    ) -> (r: RoomChange)
        requires
            old(self).wf(),
            old(self)@.can_count(channel_id),
        ensures
            final(self).wf(),
            final(self).clock() == old(self).clock(),
            exists|now: Reading|
                now.is_plausible() && (final(self)@, r@) == #[trigger] old(self)@.hint_joined(
                    channel_id,
                    user_id,
                    optional_text(sid),
                    is_bot,
                    now,
                ),
    {
        let now: Reading = self.read_clock();
        self.hint_joining_at(channel_id, user_id, sid, is_bot, now)
    }

    /// `hint_joining`, at a given moment.
    pub fn hint_joining_at(
        &mut self,
        channel_id: ChannelId,
        user_id: UserId,
        sid: Option<ParticipantSid>,
        is_bot: bool,
        now: Reading,
    ) -> (r: RoomChange)
        requires
            old(self).wf(),
            old(self)@.can_count(channel_id),
        ensures
            final(self).wf(),
            final(self).clock() == old(self).clock(),
            (final(self)@, r@) == old(self)@.hint_joined(
                channel_id,
                user_id,
                optional_text(sid),
                is_bot,
                now,
            ),
    {
        let ghost before = self@;
        let ghost session = optional_text(sid);
        proof {
            let opened = before.opened(channel_id);
            lemma_opened_valid(before, channel_id);
            lemma_hint_joined_valid(opened, channel_id, user_id, session, is_bot, now);
            lemma_stored_valid(
                before,
                channel_id,
                opened.hint_joined(channel_id, user_id, session, is_bot, now).0,
            );
        }
        let mut room: VoiceRoom = self.open_room(channel_id);
        let change: RoomChange = room.hint_joined(channel_id, user_id, sid, is_bot, now);
        proof {
            lemma_put_back(before, channel_id, room@);
        }
        self.put_room(channel_id, room);
        change
    }

    /// Takes a row out only if it is provisional. For a confirmed one nothing
    /// changes, and the second result says that the channel has to be
    /// reconciled.
    pub fn hint_leaving(&mut self, channel_id: ChannelId, user_id: UserId) -> (r: (RoomChange, bool))
        requires
            old(self).wf(),
            old(self)@.can_count(channel_id),
        ensures
            final(self).wf(),
            final(self).clock() == old(self).clock(),
            (final(self)@, r.0@) == old(self)@.hint_left(channel_id, user_id),
            r.1 == old(self)@.has_confirmed(channel_id, user_id),
    {
        let ghost before = self@;
        match self.take_room(channel_id) {
            Some(taken) => {
                let mut room: VoiceRoom = taken;
                let (left, confirmed) = room.hint_left(channel_id, user_id);
                let mut change: RoomChange = left;
                proof {
                    let outcome = before.rooms[channel_id].hint_left(channel_id, user_id);
                    lemma_hint_left_valid(before.rooms[channel_id], channel_id, user_id);
                    lemma_settled_valid(before, channel_id, outcome);
                    lemma_put_back_settled(before, channel_id, outcome);
                }
                self.settle_room(channel_id, room, &mut change);
                (change, confirmed)
            },
            None => {
                assert(self@.rooms =~= before.rooms);
                (RoomChange::empty(channel_id, 0), false)
            },
        }
    }

    /// A client published a track, or took one down. Who publishes has to be
    /// in the room, and who takes a track down has to own it.
    pub fn hint_track(
        &mut self,
        channel_id: ChannelId,
        user_id: UserId,
        track_sid: TrackSid,
        source: TrackSource,
        published: bool,
    ) -> (r: Result<RoomChange, HintError>)
        requires
            old(self).wf(),
            old(self)@.can_count(channel_id),
        ensures
            final(self).wf(),
            final(self).clock() == old(self).clock(),
            match (r, old(self)@.track_hinted(channel_id, user_id, track_sid@, source, published)) {
                (Ok(change), Ok(step)) => (final(self)@, change@) == step,
                (Err(e), Err(f)) => e == f && final(self)@ == old(self)@,
                _ => false,
            },
    {
        let ghost before = self@;
        match self.take_room(channel_id) {
            Some(taken) => {
                let mut room: VoiceRoom = taken;
                proof {
                    let model = before.rooms[channel_id];
                    lemma_hint_published_valid(model, channel_id, user_id, track_sid@, source);
                    lemma_hint_unpublished_valid(model, channel_id, user_id, track_sid@);
                    lemma_store_same(before, channel_id);
                }
                let result: Result<RoomChange, HintError> = if published {
                    room.hint_published(channel_id, user_id, track_sid, source)
                } else {
                    room.hint_unpublished(channel_id, user_id, track_sid.as_str())
                };
                proof {
                    lemma_put_back(before, channel_id, room@);
                    lemma_stored_valid(before, channel_id, room@);
                }
                self.put_room(channel_id, room);
                result
            },
            None => {
                assert(self@.rooms =~= before.rooms);
                if published {
                    Err(HintError::NotInCall)
                } else {
                    Err(HintError::TrackNotFound)
                }
            },
        }
    }

    /// A participant mutes or deafens itself. What is `None` stays as it is.
    pub fn set_audio_state(
        &mut self,
        channel_id: ChannelId,
        user_id: UserId,
        muted: Option<bool>,
        deafened: Option<bool>,
    ) -> (r: Result<RoomChange, HintError>)
        requires
            old(self).wf(),
            old(self)@.can_count(channel_id),
        ensures
            final(self).wf(),
            final(self).clock() == old(self).clock(),
            match (r, old(self)@.audio_set(channel_id, user_id, muted, deafened)) {
                (Ok(change), Ok(step)) => (final(self)@, change@) == step,
                (Err(e), Err(f)) => e == f && final(self)@ == old(self)@,
                _ => false,
            },
    {
        let ghost before = self@;
        match self.take_room(channel_id) {
            Some(taken) => {
                let mut room: VoiceRoom = taken;
                proof {
                    lemma_audio_set_valid(
                        before.rooms[channel_id],
                        channel_id,
                        user_id,
                        muted,
                        deafened,
                    );
                    lemma_store_same(before, channel_id);
                }
                let result: Result<RoomChange, HintError> = room.audio_set(
                    channel_id,
                    user_id,
                    muted,
                    deafened,
                );
                proof {
                    lemma_put_back(before, channel_id, room@);
                    lemma_stored_valid(before, channel_id, room@);
                }
                self.put_room(channel_id, room);
                result
            },
            None => {
                assert(self@.rooms =~= before.rooms);
                Err(HintError::NotInCall)
            },
        }
    }

    /// The music bot starts to play in a channel, or stops.
    pub fn set_music_row(&mut self, channel_id: ChannelId, playing: bool) -> (r: RoomChange)
        requires
            old(self).wf(),
            old(self)@.can_count(channel_id),
        ensures
            final(self).wf(),
            final(self).clock() == old(self).clock(),
            (final(self)@, r@) == old(self)@.music_set(channel_id, playing),
    {
        let ghost before = self@;
        if !playing && self.room(channel_id).is_none() {
            return RoomChange::empty(channel_id, 0);
        }
        proof {
            let opened = before.opened(channel_id);
            lemma_opened_valid(before, channel_id);
            lemma_music_set_valid(opened, channel_id, playing);
            lemma_stored_valid(before, channel_id, opened.music_set(channel_id, playing).0);
        }
        let mut room: VoiceRoom = self.open_room(channel_id);
        let change: RoomChange = room.music_set(channel_id, playing);
        proof {
            lemma_put_back(before, channel_id, room@);
        }
        self.put_room(channel_id, room);
        change
    }
}

} // verus!
