//! What time and deletion do to the registry.

use vstd::prelude::*;

use crate::clock::Reading;
use crate::ident::Uuid;
use crate::listing::{id_order, lemma_pick, lemma_picked, lemma_push_contains, lists, picks};
use crate::voice::model::reported;
use crate::voice::registry::{change_list, lemma_change_list_push, VoiceRegistry};
use crate::voice::room::VoiceRoom;
use crate::voice::types::{ChangeReason, ChannelId, RoomChange, UserId};
use crate::voice::validity::{
    lemma_closed_valid, lemma_expired_valid, lemma_put_back_settled, lemma_settle_none,
    lemma_settle_one_more, lemma_settled_all_valid, lemma_settled_valid,
};

verus! {

impl VoiceRegistry {
    /// Takes out the provisional rows that are too old. To be called on every
    /// reconcile.
    pub fn expire_provisionals(&mut self) -> (r: Vec<RoomChange>)
        requires
            old(self).wf(),
            old(self)@.can_count_in(old(self)@.rooms.dom()),
        ensures
            final(self).wf(),
            final(self).clock() == old(self).clock(),
            exists|now: i128|
                0 <= now && (final(self)@, change_list(r@)) == #[trigger] old(self)@.expired(now),
    {
        let now: Reading = self.read_clock();
        self.expire_provisionals_at(now.mono)
    }

    /// `expire_provisionals`, at a given moment.
    pub fn expire_provisionals_at(&mut self, now: i128) -> (r: Vec<RoomChange>)
        requires
            old(self).wf(),
            old(self)@.can_count_in(old(self)@.aging(now)),
        ensures
            final(self).wf(),
            final(self).clock() == old(self).clock(),
            (final(self)@, change_list(r@)) == old(self)@.expired(now),
    {
        let ghost before = self@;
        let keys: Vec<ChannelId> = self.all_channel_ids();
        let mut changes: Vec<RoomChange> = Vec::new();
        let ghost p = |c: Uuid| !(before.rooms[c].expired_at(now) =~= Set::empty());
        let ghost f = |c: Uuid| before.rooms[c].expired(c, now);
        let ghost g = |c: Uuid| reported(f(c));
        let ghost mut swept: Seq<Uuid> = Seq::empty();
        proof {
            lemma_settle_none(before, f);
            assert(swept.to_set() =~= Set::empty());
            assert(change_list(changes@) =~= swept.map_values(g));
        }
        for i in 0..keys.len()
            invariant
                before == old(self)@,
                before.valid(),
                before.can_count_in(before.aging(now)),
                p == (|c: Uuid| !(before.rooms[c].expired_at(now) =~= Set::empty())),
                f == (|c: Uuid| before.rooms[c].expired(c, now)),
                g == (|c: Uuid| reported(f(c))),
                lists(keys@, before.rooms.dom(), id_order()),
                picks(swept, keys@, i as int, p, id_order()),
                self.indexed(),
                self.clock() == old(self).clock(),
                self@ == before.settled_all(swept.to_set(), f),
                change_list(changes@) == swept.map_values(g),
        {
            let c: ChannelId = keys[i];
            let ghost middle = self@;
            proof {
                lemma_pick(swept, keys@, i as int, p, id_order());
                assert(keys@.contains(c));
                assert(before.rooms.dom().contains(c));
                assert(before.aging(now).contains(c) ==> before.can_count(c));
                assert(!swept.contains(c)) by {
                    if swept.contains(c) {
                        let j = choose|j: int| 0 <= j < i && #[trigger] keys@[j] == c;
                        let lt = id_order();
                        assert(lt(keys@[j], keys@[i as int]));
                    }
                }
                assert(middle.rooms.contains_key(c));
                assert(middle.rooms[c] == before.rooms[c]);
            }
            let expired: Vec<UserId> = match self.room(c) {
                Some(room) => room.expired_users(now),
                None => Vec::new(),
            };
            proof {
                if expired@.len() > 0 {
                    assert(expired@.contains(expired@[0]));
                    assert(expired@.to_set().contains(expired@[0]));
                } else {
                    assert(expired@.to_set() =~= Set::empty());
                }
            }
            if expired.len() > 0 {
                let mut room: VoiceRoom = self.open_room(c);
                let mut change: RoomChange = room.remove_users(
                    c,
                    expired,
                    ChangeReason::ProvisionalExpired,
                );
                proof {
                    assert((room@, change@) == f(c));
                }
                self.settle_room(c, room, &mut change);
                let ghost some = changes@;
                changes.push(change);
                proof {
                    lemma_put_back_settled(middle, c, f(c));
                    lemma_settle_one_more(before, swept.to_set(), f, c);
                    let prev = swept;
                    swept = swept.push(c);
                    assert(swept.to_set() =~= prev.to_set().insert(c)) by {
                        assert forall|d: Uuid| swept.to_set().contains(d) <==> prev.to_set().insert(c).contains(d) by {
                            lemma_push_contains(prev, c, d);
                        }
                    }
                    lemma_change_list_push(some, change);
                    assert(change_list(changes@) =~= swept.map_values(g));
                }
            }
        }
        proof {
            let all = before.aging(now);
            lemma_picked(swept, keys@, before.rooms.dom(), p, id_order());
            assert(all =~= before.rooms.dom().filter(p));
            assert forall|c: Uuid| all.contains(c) implies (#[trigger] f(c)).0.valid() by {
                assert(before.rooms.contains_key(c));
                lemma_expired_valid(before.rooms[c], c, now);
            }
            lemma_settled_all_valid(before, all, f);
            assert(change_list(changes@) =~= before.expired(now).1);
        }
        changes
    }

    /// A channel was deleted: its room closes.
    pub fn close_channel(&mut self, channel_id: ChannelId) -> (r: RoomChange)
        requires
            old(self).wf(),
            old(self)@.can_count(channel_id),
        ensures
            final(self).wf(),
            final(self).clock() == old(self).clock(),
            (final(self)@, r@) == old(self)@.channel_closed(channel_id),
    {
        if self.room(channel_id).is_none() {
            return RoomChange::empty(channel_id, 0);
        }
        proof {
            let outcome = self@.rooms[channel_id].closed(channel_id, ChangeReason::ChannelDeleted);
            lemma_closed_valid(self@.rooms[channel_id], channel_id, ChangeReason::ChannelDeleted);
            lemma_settled_valid(self@, channel_id, outcome);
        }
        self.close(channel_id, ChangeReason::ChannelDeleted)
    }
}

} // verus!
