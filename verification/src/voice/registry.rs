//! The registry: every room of the process.

use std::collections::{HashMap, VecDeque};

use vstd::hash_set::StringHashSet;
use vstd::prelude::*;

use crate::clock::{Clock, Reading};
use crate::ident::Uuid;
use crate::listing::{
    id_order, increasing, lemma_pick, lemma_picked, lemma_push_contains, lists, picks, sorted_ids,
    sorted_keys,
};
use crate::text::texts;
use crate::voice::model::{reported, ChangeModel, RegistryModel};
use crate::voice::room::VoiceRoom;
use crate::voice::types::{ChannelId, RoomChange, UserId, MAX_HUMAN_PARTICIPANTS, SEEN_EVENTS_CAP};

verus! {

broadcast use vstd::std_specs::hash::group_hash_axioms;

/// The rooms, the last version of each room that closed, and the webhook
/// events that were seen.
pub struct VoiceRegistry {
    rooms: HashMap<ChannelId, VoiceRoom>,
    retired: HashMap<ChannelId, u64>,
    seen_events: StringHashSet,
    seen_order: VecDeque<String>,
    clock: Clock,
}

impl View for VoiceRegistry {
    type V = RegistryModel;

    closed spec fn view(&self) -> RegistryModel {
        RegistryModel {
            rooms: self.rooms@.map_values(|r: VoiceRoom| r@),
            retired: self.retired@.map_values(|v: u64| v as nat),
            seen: texts(self.seen_order@),
        }
    }
}

/// What a list of changes reports.
pub open spec fn change_list(s: Seq<RoomChange>) -> Seq<ChangeModel> {
    Seq::new(s.len(), |i: int| s[i]@)
}

/// Appending a change appends what it reports.
pub proof fn lemma_change_list_push(s: Seq<RoomChange>, c: RoomChange)
    ensures
        change_list(s.push(c)) == change_list(s).push(c@),
{
    assert(change_list(s.push(c)) =~= change_list(s).push(c@));
}

impl Default for VoiceRegistry {
    /// A registry without rooms.
    fn default() -> (r: VoiceRegistry)
        ensures
            r.wf(),
            r@ == RegistryModel::empty(),
    {
        let r = VoiceRegistry {
            rooms: HashMap::new(),
            retired: HashMap::new(),
            seen_events: StringHashSet::new(),
            seen_order: VecDeque::new(),
            clock: Clock::start(),
        };
        proof {
            assert(r@.rooms =~= Map::empty());
            assert(r@.retired =~= Map::empty());
            assert(r@.seen =~= Seq::empty());
            assert(r@.seen.to_set() =~= Set::empty());
            assert(r@.rooms.dom() =~= Set::empty());
        }
        r
    }
}

impl VoiceRegistry {
    /// The tables of the rooms are in order, and the events that were seen
    /// are found.
    pub closed spec fn indexed(&self) -> bool {
        &&& forall|c: ChannelId| #[trigger] self.rooms@.contains_key(c) ==> self.rooms@[c].wf()
        &&& self.seen_events@ == texts(self.seen_order@).to_set()
    }

    /// What holds of a registry between operations.
    pub open spec fn wf(&self) -> bool {
        self.indexed() && self@.valid()
    }

    /// The clock by which rows are stamped and aged. No operation starts it
    /// anew.
    pub closed spec fn clock(&self) -> Clock {
        self.clock
    }

    /// Reads the clocks by which rows are stamped and aged.
    pub fn read_clock(&self) -> (r: Reading)
        ensures
            r.is_plausible(),
    {
        self.clock.read()
    }

    /// The room of a channel.
    pub fn room(&self, channel_id: ChannelId) -> (r: Option<&VoiceRoom>)
        requires
            self.indexed(),
        ensures
            r is Some <==> self@.rooms.contains_key(channel_id),
            r matches Some(room) ==> room@ == self@.rooms[channel_id] && room.wf(),
    {
        self.rooms.get(&channel_id)
    }

    /// The version of a channel, or 0 where it has no room.
    pub fn version(&self, channel_id: ChannelId) -> (r: u64)
        ensures
            r == (if self@.rooms.contains_key(channel_id) {
                self@.rooms[channel_id].version
            } else {
                0
            }),
    {
        match self.rooms.get(&channel_id) {
            Some(room) => room.version,
            None => 0,
        }
    }

    /// The version from which the next operation on a channel counts.
    pub(crate) fn counter(&self, channel_id: ChannelId) -> (r: u64)
        ensures
            r == self@.counter(channel_id),
    {
        match self.rooms.get(&channel_id) {
            Some(room) => room.version,
            None => match self.retired.get(&channel_id) {
                Some(v) => *v,
                None => 0,
            },
        }
    }

    /// What a channel has counted fits into its version.
    pub(crate) proof fn lemma_counter_fits(&self, c: ChannelId)
        ensures
            self@.counter(c) <= u64::MAX,
    {
    }

    /// Is there room to count one more on a channel?
    pub fn can_count(&self, channel_id: ChannelId) -> (r: bool)
        ensures
            r == self@.can_count(channel_id),
    {
        self.counter(channel_id) < u64::MAX
    }

    /// Is there room to count a track that `user_id` publishes in a channel?
    pub fn can_publish(&self, channel_id: ChannelId, user_id: UserId) -> (r: bool)
        ensures
            r == self@.can_publish(channel_id, user_id),
    {
        let most: u64 = if self.is_participant(channel_id, user_id) {
            u64::MAX - 1
        } else {
            u64::MAX - 2
        };
        self.counter(channel_id) <= most
    }

    /// Takes the room of a channel out of the registry.
    pub(crate) fn take_room(&mut self, channel_id: ChannelId) -> (r: Option<VoiceRoom>)
        requires
            old(self).indexed(),
        ensures
            final(self).indexed(),
            final(self).clock() == old(self).clock(),
            final(self)@ == (RegistryModel { rooms: old(self)@.rooms.remove(channel_id), ..old(self)@ }),
            r is Some <==> old(self)@.rooms.contains_key(channel_id),
            r matches Some(room) ==> room@ == old(self)@.rooms[channel_id] && room.wf(),
    {
        let r: Option<VoiceRoom> = self.rooms.remove(&channel_id);
        assert(self@.rooms =~= old(self)@.rooms.remove(channel_id));
        r
    }

    /// Takes the room of a channel out of the registry, or makes one that
    /// counts on.
    pub(crate) fn open_room(&mut self, channel_id: ChannelId) -> (r: VoiceRoom)
        requires
            old(self).indexed(),
        ensures
            final(self).indexed(),
            final(self).clock() == old(self).clock(),
            final(self)@ == (RegistryModel { rooms: old(self)@.rooms.remove(channel_id), ..old(self)@ }),
            r@ == old(self)@.opened(channel_id),
            r.wf(),
    {
        let version: u64 = self.counter(channel_id);
        match self.take_room(channel_id) {
            Some(room) => room,
            None => VoiceRoom::counting_from(version),
        }
    }

    /// Puts a room into the registry.
    pub(crate) fn put_room(&mut self, channel_id: ChannelId, room: VoiceRoom)
        requires
            old(self).indexed(),
            room.wf(),
        ensures
            final(self).indexed(),
            final(self).clock() == old(self).clock(),
            final(self)@ == old(self)@.stored(channel_id, room@),
    {
        let ghost model = room@;
        self.rooms.insert(channel_id, room);
        assert(self@.rooms =~= old(self)@.rooms.insert(channel_id, model));
    }

    /// Remembers the last version of a room that closed. The room is not in
    /// the registry any more.
    pub(crate) fn retire(&mut self, channel_id: ChannelId, version: u64)
        requires
            old(self).indexed(),
        ensures
            final(self).indexed(),
            final(self).clock() == old(self).clock(),
            final(self)@ == (RegistryModel {
                retired: old(self)@.retired.insert(channel_id, version as nat),
                ..old(self)@
            }),
    {
        self.retired.insert(channel_id, version);
        assert(self@.retired =~= old(self)@.retired.insert(channel_id, version as nat));
    }

    /// Puts a room back after an operation, or closes it where its last
    /// participant left. A room with only the music row does not survive: the
    /// bot is itself a participant while it plays.
    pub(crate) fn settle_room(&mut self, channel_id: ChannelId, room: VoiceRoom, change: &mut RoomChange)
        requires
            old(self).indexed(),
            !old(self)@.rooms.contains_key(channel_id),
            room.wf(),
            !old(change)@.room_closed,
        ensures
            final(self).indexed(),
            final(self).clock() == old(self).clock(),
            final(self)@ == old(self)@.settled(channel_id, (room@, old(change)@)),
            final(change)@ == reported((room@, old(change)@)),
    {
        if !change.is_empty() && room.is_deserted() {
            self.retire(channel_id, room.version);
            change.room_closed = true;
            proof {
                assert(self@.rooms =~= old(self)@.rooms.remove(channel_id));
                assert(change@ =~= reported((room@, old(change)@)));
            }
        } else {
            proof {
                assert(change@ =~= reported((room@, old(change)@)));
            }
            self.put_room(channel_id, room);
        }
    }

    /// Is the event `key` known?
    pub fn has_seen(&self, key: &str) -> (r: bool)
        requires
            self.wf(),
        ensures
            r == self@.seen.contains(key@),
    {
        self.seen_events.contains(key)
    }

    /// Is the event `key` known? If it is not, it is from now on: a second
    /// delivery is told from the first. Only the last events are remembered.
    pub fn is_duplicate_event(&mut self, key: &str) -> (r: bool)
        requires
            old(self).wf(),
        ensures
            final(self).wf(),
            final(self).clock() == old(self).clock(),
            r == old(self)@.seen.contains(key@),
            final(self)@ == old(self)@.having_seen(key@),
    {
        if self.has_seen(key) {
            return true;
        }
        let ghost seen = texts(self.seen_order@);
        self.seen_events.insert(key.to_string());
        self.seen_order.push_back(key.to_string());
        proof {
            assert(texts(self.seen_order@) =~= seen.push(key@));
            assert forall|k: Seq<char>| #[trigger] seen.push(key@).to_set().contains(k) <==> seen.to_set().contains(k)
                || k == key@ by {
                lemma_push_contains(seen, key@, k);
            }
            assert(self.seen_events@ =~= seen.push(key@).to_set());
            assert(seen.push(key@).no_duplicates()) by {
                assert forall|i: int, j: int| 0 <= i < j < seen.push(key@).len() implies seen.push(key@)[i]
                    != seen.push(key@)[j] by {
                    if j == seen.len() {
                        assert(seen.contains(seen[i]));
                    }
                }
            }
        }
        if self.seen_order.len() > SEEN_EVENTS_CAP {
            let ghost all = texts(self.seen_order@);
            if let Some(oldest) = self.seen_order.pop_front() {
                self.seen_events.remove(oldest.as_str());
                proof {
                    assert(texts(self.seen_order@) =~= all.skip(1));
                    assert(oldest@ == all[0]);
                    assert forall|k: Seq<char>| #[trigger] all.skip(1).to_set().contains(k) <==> all.to_set().contains(k)
                        && k != all[0] by {
                        if all.skip(1).to_set().contains(k) {
                            let i = choose|i: int| 0 <= i < all.skip(1).len() && all.skip(1)[i] == k;
                            assert(all[i + 1] == k);
                        }
                        if all.to_set().contains(k) && k != all[0] {
                            let i = choose|i: int| 0 <= i < all.len() && all[i] == k;
                            assert(all.skip(1)[i - 1] == k);
                        }
                    }
                    assert(self.seen_events@ =~= all.skip(1).to_set());
                    assert(all.skip(1).no_duplicates());
                }
            }
        }
        proof {
            assert(self@ =~= old(self)@.having_seen(key@));
        }
        false
    }

    /// Every channel that has a room, even one with nobody in it, in order.
    pub fn all_channel_ids(&self) -> (r: Vec<ChannelId>)
        ensures
            r@ == sorted_ids(self@.rooms.dom()),
            lists(r@, self@.rooms.dom(), id_order()),
    {
        assert(self.rooms@.dom() =~= self@.rooms.dom());
        sorted_keys(&self.rooms)
    }

    /// The channels with at least one participant, in order.
    pub fn active_channel_ids(&self) -> (r: Vec<ChannelId>)
        ensures
            r@ == sorted_ids(self@.rooms.dom().filter(|c: Uuid| !self@.rooms[c].deserted())),
            lists(
                r@,
                self@.rooms.dom().filter(|c: Uuid| !self@.rooms[c].deserted()),
                id_order(),
            ),
    {
        let keys: Vec<ChannelId> = self.all_channel_ids();
        let mut out: Vec<ChannelId> = Vec::new();
        let ghost p = |c: Uuid| !self@.rooms[c].deserted();
        for i in 0..keys.len()
            invariant
                increasing(keys@, id_order()),
                picks(out@, keys@, i as int, p, id_order()),
                p == (|c: Uuid| !self@.rooms[c].deserted()),
                lists(keys@, self@.rooms.dom(), id_order()),
        {
            proof {
                lemma_pick(out@, keys@, i as int, p, id_order());
                assert(keys@.contains(keys@[i as int]));
                assert(self@.rooms.dom().contains(keys@[i as int]));
            }
            if let Some(room) = self.rooms.get(&keys[i]) {
                if !room.is_deserted() {
                    out.push(keys[i]);
                }
            }
        }
        proof {
            lemma_picked(out@, keys@, self@.rooms.dom(), p, id_order());
        }
        out
    }

    /// Is `user_id` in the channel?
    pub fn is_participant(&self, channel_id: ChannelId, user_id: UserId) -> (r: bool)
        ensures
            r == (self@.rooms.contains_key(channel_id)
                && self@.rooms[channel_id].participants.contains_key(user_id)),
    {
        match self.rooms.get(&channel_id) {
            Some(room) => room.contains(user_id),
            None => false,
        }
    }

    /// Who is in the channel, in order.
    pub fn participant_ids(&self, channel_id: ChannelId) -> (r: Vec<UserId>)
        ensures
            r@ == (if self@.rooms.contains_key(channel_id) {
                sorted_ids(self@.rooms[channel_id].participants.dom())
            } else {
                Seq::empty()
            }),
    {
        match self.rooms.get(&channel_id) {
            Some(room) => {
                assert(room.participants@.dom() =~= room@.participants.dom());
                sorted_keys(&room.participants)
            },
            None => Vec::new(),
        }
    }

    /// The channel that `user_id` is in: the first one, where it is in more
    /// than one.
    pub fn channel_of(&self, user_id: UserId) -> (r: Option<ChannelId>)
        ensures
            r == self@.channel_of(user_id),
    {
        let keys: Vec<ChannelId> = self.all_channel_ids();
        let mut out: Vec<ChannelId> = Vec::new();
        let ghost p = |c: Uuid| self@.rooms[c].participants.contains_key(user_id);
        for i in 0..keys.len()
            invariant
                lists(keys@, self@.rooms.dom(), id_order()),
                p == (|c: Uuid| self@.rooms[c].participants.contains_key(user_id)),
                picks(out@, keys@, i as int, p, id_order()),
        {
            proof {
                lemma_pick(out@, keys@, i as int, p, id_order());
                assert(keys@.contains(keys@[i as int]));
                assert(self@.rooms.dom().contains(keys@[i as int]));
            }
            if self.is_participant(keys[i], user_id) {
                out.push(keys[i]);
            }
        }
        proof {
            lemma_picked(out@, keys@, self@.rooms.dom(), p, id_order());
        }
        if out.len() > 0 {
            Some(out[0])
        } else {
            None
        }
    }

    /// How many people the channel holds: confirmed, and not bots.
    pub fn human_count(&self, channel_id: ChannelId) -> (r: usize)
        ensures
            r == (if self@.rooms.contains_key(channel_id) {
                self@.rooms[channel_id].human_count()
            } else {
                0
            }),
    {
        match self.rooms.get(&channel_id) {
            Some(room) => room.human_count(),
            None => 0,
        }
    }

    /// Does the channel hold as many people as it admits?
    pub fn is_full(&self, channel_id: ChannelId) -> (r: bool)
        ensures
            r == (self@.rooms.contains_key(channel_id) && self@.rooms[channel_id].human_count()
                >= MAX_HUMAN_PARTICIPANTS),
    {
        self.human_count(channel_id) >= MAX_HUMAN_PARTICIPANTS
    }
}

} // verus!
