//! The tracks of a room, kept in the order of their SIDs.

use vstd::prelude::*;

use crate::ident::Uuid;
use crate::listing::{
    increasing, lemma_is_listing, lemma_pick, lemma_picked, lemma_text_order, lists, picks,
    sorted_texts, text_order,
};
use crate::text::{lemma_lex_irreflexive, lex_lt, same_text, str_before, texts};
use crate::voice::model::TrackModel;
use crate::voice::types::{track_rows, TrackSid, TrackSource, VoiceTrack};

verus! {

/// A table of tracks. A track is found by its SID and by nothing else.
#[derive(Debug)]
pub struct TrackTable {
    rows: Vec<VoiceTrack>,
}

/// Is row `i` the track `sid`?
pub closed spec fn is_row(rows: Seq<VoiceTrack>, i: int, sid: Seq<char>) -> bool {
    0 <= i < rows.len() && rows[i].sid@ == sid
}

impl View for TrackTable {
    type V = Map<Seq<char>, TrackModel>;

    closed spec fn view(&self) -> Map<Seq<char>, TrackModel> {
        Map::new(
            |s: Seq<char>| exists|i: int| is_row(self.rows@, i, s),
            |s: Seq<char>| self.rows@[choose|i: int| is_row(self.rows@, i, s)]@,
        )
    }
}

impl TrackTable {
    /// The rows are in the order of their SIDs, each SID once.
    pub closed spec fn wf(&self) -> bool {
        forall|i: int, j: int|
            0 <= i < j < self.rows@.len() ==> lex_lt(
                #[trigger] self.rows@[i].sid@,
                #[trigger] self.rows@[j].sid@,
            )
    }

    /// The SIDs of the rows.
    spec fn sids(&self) -> Seq<Seq<char>> {
        Seq::new(self.rows@.len(), |i: int| self.rows@[i].sid@)
    }

    /// Row `i` is found by its SID.
    proof fn lemma_row(&self, i: int)
        requires
            self.wf(),
            0 <= i < self.rows@.len(),
        ensures
            self@.contains_key(self.rows@[i].sid@),
            self@[self.rows@[i].sid@] == self.rows@[i]@,
    {
        let s = self.rows@[i].sid@;
        assert(is_row(self.rows@, i, s));
        let j = choose|j: int| is_row(self.rows@, j, s);
        lemma_lex_irreflexive(s);
        assert(j == i);
    }

    /// A SID of the table is the SID of a row.
    proof fn lemma_key(&self, s: Seq<char>) -> (i: int)
        requires
            self@.contains_key(s),
        ensures
            0 <= i < self.rows@.len(),
            self.rows@[i].sid@ == s,
    {
        choose|i: int| is_row(self.rows@, i, s)
    }

    /// What every table is: finite, each row found by its own SID.
    pub proof fn lemma_table(&self)
        requires
            self.wf(),
        ensures
            self@.dom().finite(),
            forall|s: Seq<char>| #[trigger] self@.contains_key(s) ==> self@[s].sid == s,
    {
        let sids = self.sids();
        assert forall|s: Seq<char>| self@.dom().contains(s) <==> #[trigger] sids.to_set().contains(s) by {
            if self@.contains_key(s) {
                let i = self.lemma_key(s);
                assert(sids[i] == s);
            }
            if sids.to_set().contains(s) {
                let i = choose|i: int| 0 <= i < sids.len() && sids[i] == s;
                self.lemma_row(i);
            }
        }
        assert(self@.dom() =~= sids.to_set());
        assert forall|s: Seq<char>| #[trigger] self@.contains_key(s) implies self@[s].sid == s by {
            let i = self.lemma_key(s);
            self.lemma_row(i);
        }
    }

    /// A table without tracks.
    pub fn new() -> (r: TrackTable)
        ensures
            r.wf(),
            r@ == Map::<Seq<char>, TrackModel>::empty(),
    {
        let r = TrackTable { rows: Vec::new() };
        assert(r@ =~= Map::<Seq<char>, TrackModel>::empty()) by {
            assert forall|s: Seq<char>| !#[trigger] r@.contains_key(s) by {
                if r@.contains_key(s) {
                    let i = r.lemma_key(s);
                }
            }
        }
        r
    }

    /// How many rows have a smaller SID than `sid`.
    fn place(&self, sid: &str) -> (i: usize)
        requires
            self.wf(),
        ensures
            i <= self.rows@.len(),
            forall|j: int| 0 <= j < i ==> lex_lt(#[trigger] self.rows@[j].sid@, sid@),
            i < self.rows@.len() ==> !lex_lt(self.rows@[i as int].sid@, sid@),
            self@.contains_key(sid@) <==> i < self.rows@.len() && self.rows@[i as int].sid@ == sid@,
    {
        let mut i: usize = 0;
        while i < self.rows.len() && str_before(self.rows[i].sid.as_str(), sid)
            invariant
                i <= self.rows@.len(),
                forall|j: int| 0 <= j < i ==> lex_lt(#[trigger] self.rows@[j].sid@, sid@),
            decreases self.rows@.len() - i,
        {
            i += 1;
        }
        proof {
            if i < self.rows@.len() && self.rows@[i as int].sid@ == sid@ {
                self.lemma_row(i as int);
            }
            if self@.contains_key(sid@) {
                let j = self.lemma_key(sid@);
                lemma_lex_irreflexive(sid@);
                if i < j {
                    lemma_text_order();
                    let lt = text_order();
                    assert(lt(self.rows@[i as int].sid@, self.rows@[j].sid@));
                    assert(lex_lt(self.rows@[i as int].sid@, sid@));
                }
            }
        }
        i
    }

    /// The track `sid`, if it is in the table.
    pub fn get(&self, sid: &str) -> (r: Option<&VoiceTrack>)
        requires
            self.wf(),
        ensures
            r is Some <==> self@.contains_key(sid@),
            r matches Some(t) ==> t@ == self@[sid@],
    {
        let i: usize = self.place(sid);
        if i < self.rows.len() && same_text(self.rows[i].sid.as_str(), sid) {
            proof {
                self.lemma_row(i as int);
            }
            Some(&self.rows[i])
        } else {
            None
        }
    }

    /// Is the track `sid` in the table?
    pub fn contains_key(&self, sid: &str) -> (r: bool)
        requires
            self.wf(),
        ensures
            r == self@.contains_key(sid@),
    {
        let i: usize = self.place(sid);
        i < self.rows.len() && same_text(self.rows[i].sid.as_str(), sid)
    }

    /// Puts a track in, in place of an older one of the same SID.
    pub fn insert(&mut self, track: VoiceTrack)
        requires
            old(self).wf(),
        ensures
            final(self).wf(),
            final(self)@ == old(self)@.insert(track.sid@, track@),
    {
        let ghost before = *self;
        let i: usize = self.place(track.sid.as_str());
        let ghost s0 = track.sid@;
        let ghost row = track;
        if i < self.rows.len() && same_text(self.rows[i].sid.as_str(), track.sid.as_str()) {
            self.rows.set(i, track);
            proof {
                assert(self.rows@ =~= before.rows@.update(i as int, row));
                assert(self.wf());
                assert forall|s: Seq<char>| #[trigger] self@.contains_key(s) <==> before@.contains_key(s)
                    || s == s0 by {
                    if self@.contains_key(s) {
                        let j = self.lemma_key(s);
                        if j != i {
                            assert(before.rows@[j].sid@ == s);
                            before.lemma_row(j);
                        }
                    }
                    if before@.contains_key(s) {
                        let j = before.lemma_key(s);
                        assert(self.rows@[j].sid@ == s);
                        self.lemma_row(j);
                    }
                    self.lemma_row(i as int);
                }
                assert forall|s: Seq<char>| #[trigger] self@.contains_key(s) implies self@[s]
                    == before@.insert(s0, row@)[s] by {
                    let j = self.lemma_key(s);
                    self.lemma_row(j);
                    if j != i {
                        before.lemma_row(j);
                        lemma_lex_irreflexive(s);
                    }
                }
                assert(self@ =~= before@.insert(s0, row@));
            }
        } else {
            self.rows.insert(i, track);
            proof {
                let old_rows = before.rows@;
                let rows = self.rows@;
                assert(rows =~= old_rows.insert(i as int, row));
                lemma_text_order();
                let lt = text_order();
                assert(forall|a: Seq<char>, b: Seq<char>| lt(a, b) == lex_lt(a, b));
                assert forall|j: int| i <= j < old_rows.len() implies lex_lt(
                    s0,
                    #[trigger] old_rows[j].sid@,
                ) by {
                    let a = old_rows[i as int].sid@;
                    assert(a != s0);
                    assert(lt(a, s0) || lt(s0, a));
                    if i < j {
                        assert(lt(a, old_rows[j].sid@));
                        assert(lt(s0, a) && lt(a, old_rows[j].sid@) ==> lt(s0, old_rows[j].sid@));
                    }
                }
                assert(self.wf());
                assert forall|s: Seq<char>| #[trigger] self@.contains_key(s) <==> before@.contains_key(s)
                    || s == s0 by {
                    if self@.contains_key(s) {
                        let j = self.lemma_key(s);
                        if j < i {
                            before.lemma_row(j);
                        } else if j > i {
                            assert(rows[j] == old_rows[j - 1]);
                            before.lemma_row(j - 1);
                        }
                    }
                    if before@.contains_key(s) {
                        let j = before.lemma_key(s);
                        let k = if j < i {
                            j
                        } else {
                            j + 1
                        };
                        assert(rows[k] == old_rows[j]);
                        self.lemma_row(k);
                    }
                    assert(rows[i as int] == row);
                    self.lemma_row(i as int);
                }
                assert forall|s: Seq<char>| #[trigger] self@.contains_key(s) implies self@[s]
                    == before@.insert(s0, row@)[s] by {
                    let j = self.lemma_key(s);
                    self.lemma_row(j);
                    lemma_lex_irreflexive(s);
                    if j < i {
                        before.lemma_row(j);
                    } else if j > i {
                        assert(rows[j] == old_rows[j - 1]);
                        before.lemma_row(j - 1);
                    }
                }
                assert(self@ =~= before@.insert(s0, row@));
            }
        }
    }

    /// Takes the track `sid` out. Says whether it was there.
    pub fn remove(&mut self, sid: &str) -> (r: bool)
        requires
            old(self).wf(),
        ensures
            final(self).wf(),
            final(self)@ == old(self)@.remove(sid@),
            r == old(self)@.contains_key(sid@),
    {
        let ghost before = *self;
        let i: usize = self.place(sid);
        if i < self.rows.len() && same_text(self.rows[i].sid.as_str(), sid) {
            self.rows.remove(i);
            proof {
                let old_rows = before.rows@;
                let rows = self.rows@;
                assert(rows =~= old_rows.remove(i as int));
                assert(self.wf()) by {
                    assert forall|a: int, b: int| 0 <= a < b < rows.len() implies lex_lt(
                        #[trigger] rows[a].sid@,
                        #[trigger] rows[b].sid@,
                    ) by {
                        let x = if a < i { a } else { a + 1 };
                        let y = if b < i { b } else { b + 1 };
                        assert(rows[a] == old_rows[x]);
                        assert(rows[b] == old_rows[y]);
                    }
                }
                assert forall|s: Seq<char>| #[trigger] self@.contains_key(s) <==> before@.contains_key(s)
                    && s != sid@ by {
                    if self@.contains_key(s) {
                        let j = self.lemma_key(s);
                        let x = if j < i { j } else { j + 1 };
                        assert(rows[j] == old_rows[x]);
                        before.lemma_row(x);
                        lemma_lex_irreflexive(s);
                        assert(old_rows[i as int].sid@ == sid@);
                    }
                    if before@.contains_key(s) && s != sid@ {
                        let x = before.lemma_key(s);
                        let j = if x < i { x } else { x - 1 };
                        assert(rows[j] == old_rows[x]);
                        self.lemma_row(j);
                    }
                }
                assert forall|s: Seq<char>| #[trigger] self@.contains_key(s) implies self@[s]
                    == before@[s] by {
                    let j = self.lemma_key(s);
                    self.lemma_row(j);
                    let x = if j < i { j } else { j + 1 };
                    assert(rows[j] == old_rows[x]);
                    before.lemma_row(x);
                }
                assert(self@ =~= before@.remove(sid@));
            }
            true
        } else {
            assert(self@ =~= before@.remove(sid@));
            false
        }
    }

    /// Takes every track of `sids` out.
    pub fn remove_all(&mut self, sids: &Vec<TrackSid>)
        requires
            old(self).wf(),
        ensures
            final(self).wf(),
            final(self)@ == old(self)@.remove_keys(texts(sids@).to_set()),
    {
        let ghost before = self@;
        assert(texts(sids@.take(0)).to_set() =~= Set::empty());
        assert(self@ =~= before.remove_keys(texts(sids@.take(0)).to_set()));
        for i in 0..sids.len()
            invariant
                self.wf(),
                self@ == before.remove_keys(texts(sids@.take(i as int)).to_set()),
        {
            let ghost middle = self@;
            self.remove(sids[i].as_str());
            proof {
                let some = texts(sids@.take(i as int));
                let more = texts(sids@.take(i + 1));
                assert(more =~= some.push(sids@[i as int]@));
                assert forall|s: Seq<char>| #[trigger] more.to_set().contains(s) <==> some.to_set().contains(s) || s
                    == sids@[i as int]@ by {
                    if some.to_set().contains(s) {
                        let j = choose|j: int| 0 <= j < some.len() && some[j] == s;
                        assert(more[j] == s);
                    }
                    if s == sids@[i as int]@ {
                        assert(more[i as int] == s);
                    }
                    if more.to_set().contains(s) && s != sids@[i as int]@ {
                        let j = choose|j: int| 0 <= j < more.len() && more[j] == s;
                        assert(some[j] == s);
                    }
                }
                assert(self@ =~= before.remove_keys(more.to_set()));
            }
        }
        assert(sids@.take(sids@.len() as int) =~= sids@);
    }

    /// How many tracks there are.
    pub fn len(&self) -> (r: usize)
        requires
            self.wf(),
        ensures
            r == self@.dom().len(),
    {
        proof {
            let sids = self.sids();
            self.lemma_rows_listed();
            assert(sids.no_duplicates()) by {
                assert forall|i: int, j: int| 0 <= i < j < sids.len() implies sids[i] != sids[j] by {
                    lemma_lex_irreflexive(sids[i]);
                    assert(lex_lt(self.rows@[i].sid@, self.rows@[j].sid@));
                }
            }
            sids.unique_seq_to_set();
            assert(sids.to_set() =~= self@.dom()) by {
                assert forall|s: Seq<char>| self@.dom().contains(s) <==> #[trigger] sids.to_set().contains(s) by {
                    assert(sids.contains(s) <==> self@.dom().contains(s));
                }
            }
        }
        self.rows.len()
    }

    /// Are there no tracks?
    pub fn is_empty(&self) -> (r: bool)
        requires
            self.wf(),
        ensures
            r == (self@.dom() =~= Set::empty()),
    {
        proof {
            if self.rows@.len() > 0 {
                self.lemma_row(0);
                assert(self@.dom().contains(self.rows@[0].sid@));
            } else {
                assert forall|s: Seq<char>| !self@.dom().contains(s) by {
                    if self@.contains_key(s) {
                        let i = self.lemma_key(s);
                    }
                }
            }
        }
        self.rows.len() == 0
    }

    /// The SIDs of the rows list the keys.
    proof fn lemma_rows_listed(&self)
        requires
            self.wf(),
        ensures
            lists(self.sids(), self@.dom(), text_order()),
            self.sids() == sorted_texts(self@.dom()),
    {
        let sids = self.sids();
        let lt = text_order();
        assert forall|i: int, j: int| 0 <= i < j < sids.len() implies lt(#[trigger] sids[i], #[trigger] sids[j]) by {
            assert(lex_lt(self.rows@[i].sid@, self.rows@[j].sid@));
        }
        assert forall|s: Seq<char>| sids.contains(s) <==> #[trigger] self@.dom().contains(s) by {
            if sids.contains(s) {
                let i = choose|i: int| 0 <= i < sids.len() && sids[i] == s;
                self.lemma_row(i);
            }
            if self@.dom().contains(s) {
                let i = self.lemma_key(s);
                assert(sids[i] == s);
            }
        }
        lemma_text_order();
        lemma_is_listing(sids, self@.dom(), lt);
    }

    /// The tracks, in the order of their SIDs.
    pub fn values(&self) -> (r: &Vec<VoiceTrack>)
        requires
            self.wf(),
        ensures
            track_rows(r@) == sorted_texts(self@.dom()).map_values(|s: Seq<char>| self@[s]),
    {
        proof {
            self.lemma_rows_listed();
            let want = sorted_texts(self@.dom()).map_values(|s: Seq<char>| self@[s]);
            assert forall|i: int| 0 <= i < self.rows@.len() implies #[trigger] track_rows(self.rows@)[i] == want[i] by {
                self.lemma_row(i);
            }
            assert(track_rows(self.rows@) =~= want);
        }
        &self.rows
    }

    /// The SIDs, in order.
    pub fn keys(&self) -> (r: Vec<TrackSid>)
        requires
            self.wf(),
        ensures
            texts(r@) == sorted_texts(self@.dom()),
    {
        let mut out: Vec<TrackSid> = Vec::new();
        for i in 0..self.rows.len()
            invariant
                out@.len() == i,
                forall|j: int| 0 <= j < i ==> (#[trigger] out@[j])@ == self.rows@[j].sid@,
        {
            out.push(self.rows[i].sid.clone());
        }
        proof {
            self.lemma_rows_listed();
            assert(texts(out@) =~= self.sids());
        }
        out
    }

    /// The SIDs of the tracks whose owner is in `owners`, in order.
    pub fn owned_by(&self, owners: &Vec<Uuid>) -> (r: Vec<TrackSid>)
        requires
            self.wf(),
        ensures
            texts(r@) == sorted_texts(
                self@.dom().filter(|s: Seq<char>| owners@.to_set().contains(self@[s].owner)),
            ),
    {
        let mut out: Vec<TrackSid> = Vec::new();
        proof {
            self.lemma_rows_listed();
        }
        let ghost p = |s: Seq<char>| owners@.to_set().contains(self@[s].owner);
        for i in 0..self.rows.len()
            invariant
                self.wf(),
                p == (|s: Seq<char>| owners@.to_set().contains(self@[s].owner)),
                picks(texts(out@), self.sids(), i as int, p, text_order()),
                increasing(self.sids(), text_order()),
        {
            let owned: bool = has_id(owners, self.rows[i].owner);
            proof {
                self.lemma_row(i as int);
                lemma_pick(texts(out@), self.sids(), i as int, p, text_order());
            }
            if owned {
                let ghost some = out@;
                out.push(self.rows[i].sid.clone());
                assert(texts(out@) =~= texts(some).push(self.rows@[i as int].sid@));
            }
        }
        proof {
            self.lemma_rows_listed();
            lemma_text_order();
            lemma_picked(texts(out@), self.sids(), self@.dom(), p, text_order());
        }
        out
    }

    /// The SIDs of the tracks that `live` does not list, in order. The music
    /// row, which is never listed, is not among them.
    pub fn stale(&self, live: &TrackTable) -> (r: Vec<TrackSid>)
        requires
            self.wf(),
            live.wf(),
        ensures
            texts(r@) == sorted_texts(
                self@.dom().filter(
                    |s: Seq<char>| self@[s].source != TrackSource::Music && !live@.contains_key(s),
                ),
            ),
    {
        let mut out: Vec<TrackSid> = Vec::new();
        proof {
            self.lemma_rows_listed();
        }
        let ghost p = |s: Seq<char>|
            self@[s].source != TrackSource::Music && !live@.contains_key(s);
        for i in 0..self.rows.len()
            invariant
                self.wf(),
                live.wf(),
                p == (|s: Seq<char>|
                    self@[s].source != TrackSource::Music && !live@.contains_key(s)),
                picks(texts(out@), self.sids(), i as int, p, text_order()),
                increasing(self.sids(), text_order()),
        {
            let listed: bool = live.contains_key(self.rows[i].sid.as_str());
            proof {
                self.lemma_row(i as int);
                lemma_pick(texts(out@), self.sids(), i as int, p, text_order());
            }
            if self.rows[i].source != TrackSource::Music && !listed {
                let ghost some = out@;
                out.push(self.rows[i].sid.clone());
                assert(texts(out@) =~= texts(some).push(self.rows@[i as int].sid@));
            }
        }
        proof {
            self.lemma_rows_listed();
            lemma_text_order();
            lemma_picked(texts(out@), self.sids(), self@.dom(), p, text_order());
        }
        out
    }
}

/// Is `id` in the list?
pub fn has_id(ids: &Vec<Uuid>, id: Uuid) -> (r: bool)
    ensures
        r == ids@.to_set().contains(id),
        r == ids@.contains(id),
{
    for i in 0..ids.len()
        invariant
            forall|j: int| 0 <= j < i ==> ids@[j] != id,
    {
        if ids[i] == id {
            assert(ids@.contains(id));
            return true;
        }
    }
    false
}

} // verus!
