//! What members do outside, and how long they have played.

use vstd::prelude::*;

use crate::clock::{rfc3339_text, UtcTime, LAST_SECOND_OF_9999};
use crate::ident::Uuid;
use crate::listing::{
    lemma_insert_at, lemma_is_listing, lemma_listing_exists, lemma_text_order, lists, sorted_texts,
    text_order,
};
use crate::protocol::{
    Activity, ActivityEntry, ActivitySnapshot, ActivityUpdate, OutboundEnvelope, Payload,
};
use crate::text::{lex_lt, optional_text, same_text, str_before, texts};
use crate::voice::rows::law_texts_listed;

verus! {

/// A game that is being played: the key by which its time is kept, and its
/// name.
#[derive(Debug)]
pub struct Game {
    pub key: String,
    pub name: String,
}

/// The keys of a list of games.
pub open spec fn keys_of(games: Seq<Game>) -> Set<Seq<char>> {
    Set::new(|k: Seq<char>| exists|i: int| 0 <= i < games.len() && (#[trigger] games[i]).key@ == k)
}

/// The name of the game `key`: the last one, where the key comes more than
/// once.
pub open spec fn name_of(games: Seq<Game>, key: Seq<char>) -> Seq<char>
    decreases games.len(),
{
    if games.len() == 0 {
        Seq::empty()
    } else if games.last().key@ == key {
        games.last().name@
    } else {
        name_of(games.drop_last(), key)
    }
}

/// Is there a game `key` in the list?
fn has_key(games: &Vec<Game>, key: &str) -> (r: bool)
    ensures
        r == keys_of(games@).contains(key@),
{
    for i in 0..games.len()
        invariant
            forall|j: int| 0 <= j < i ==> (#[trigger] games@[j]).key@ != key@,
    {
        if same_text(games[i].key.as_str(), key) {
            assert(games@[i as int].key@ == key@);
            return true;
        }
    }
    false
}

/// The name of the game `key`.
fn find_name(games: &Vec<Game>, key: &str) -> (r: String)
    requires
        keys_of(games@).contains(key@),
    ensures
        r@ == name_of(games@, key@),
{
    let mut i: usize = games.len();
    assert(games@.take(i as int) =~= games@);
    while i > 0
        invariant
            i <= games@.len(),
            keys_of(games@).contains(key@),
            name_of(games@, key@) == name_of(games@.take(i as int), key@),
            forall|j: int| i <= j < games@.len() ==> (#[trigger] games@[j]).key@ != key@,
        decreases i,
    {
        proof {
            assert(games@.take(i as int).drop_last() =~= games@.take(i - 1));
            assert(games@.take(i as int).last() == games@[i - 1]);
        }
        if same_text(games[i - 1].key.as_str(), key) {
            return games[i - 1].name.clone();
        }
        i -= 1;
    }
    proof {
        let j = choose|j: int| 0 <= j < games@.len() && (#[trigger] games@[j]).key@ == key@;
        assert(false);
    }
    "".to_string()
}

/// Puts `key` where it belongs in an increasing list of keys, unless it is
/// there.
fn insert_key(keys: &mut Vec<String>, key: &str, Ghost(set): Ghost<Set<Seq<char>>>)
    requires
        lists(texts(old(keys)@), set, text_order()),
    ensures
        lists(texts(final(keys)@), set.insert(key@), text_order()),
{
    let mut i: usize = 0;
    while i < keys.len() && str_before(keys[i].as_str(), key)
        invariant
            i <= keys@.len(),
            keys@ == old(keys)@,
            forall|j: int| 0 <= j < i ==> lex_lt((#[trigger] keys@[j])@, key@),
        decreases keys@.len() - i,
    {
        i += 1;
    }
    let ghost s = texts(keys@);
    let ghost lt = text_order();
    proof {
        lemma_text_order();
        assert(forall|a: Seq<char>, b: Seq<char>| lt(a, b) == lex_lt(a, b));
    }
    if i < keys.len() && same_text(keys[i].as_str(), key) {
        proof {
            assert(s[i as int] == key@);
            assert(s.contains(key@));
            assert(set.insert(key@) =~= set);
        }
        return;
    }
    proof {
        assert forall|j: int| 0 <= j < i implies lt(#[trigger] s[j], key@) by {
            assert(lex_lt(keys@[j]@, key@));
        }
        assert forall|j: int| i <= j < s.len() implies lt(key@, #[trigger] s[j]) by {
            assert(s[i as int] != key@);
            assert(!lt(s[i as int], key@));
            assert(lt(key@, s[i as int]));
            if i < j {
                assert(lt(s[i as int], s[j]));
            }
        }
        lemma_insert_at(s, set, key@, i as int, lt);
    }
    keys.insert(i, key.to_string());
    assert(texts(keys@) =~= s.insert(i as int, key@));
}

/// The keys that are in `here` and not in `there`, in order.
fn keys_only_in(here: &Vec<Game>, there: &Vec<Game>) -> (r: Vec<String>)
    ensures
        texts(r@) == sorted_texts(keys_of(here@).difference(keys_of(there@))),
        lists(texts(r@), keys_of(here@).difference(keys_of(there@)), text_order()),
{
    let mut out: Vec<String> = Vec::new();
    let ghost mut set: Set<Seq<char>> = Set::empty();
    proof {
        assert(texts(out@) =~= Seq::empty());
    }
    for i in 0..here.len()
        invariant
            lists(texts(out@), set, text_order()),
            set == keys_of(here@.take(i as int)).difference(keys_of(there@)),
    {
        let key: &str = here[i].key.as_str();
        let ghost some = here@.take(i as int);
        let ghost more = here@.take(i + 1);
        proof {
            assert forall|k: Seq<char>| #[trigger] keys_of(more).contains(k) <==> keys_of(some).contains(k) || k
                == key@ by {
                if keys_of(some).contains(k) {
                    let j = choose|j: int| 0 <= j < some.len() && (#[trigger] some[j]).key@ == k;
                    assert(more[j].key@ == k);
                }
                if k == key@ {
                    assert(more[i as int].key@ == k);
                }
                if keys_of(more).contains(k) && k != key@ {
                    let j = choose|j: int| 0 <= j < more.len() && (#[trigger] more[j]).key@ == k;
                    assert(some[j].key@ == k);
                }
            }
        }
        if !has_key(there, key) {
            insert_key(&mut out, key, Ghost(set));
            proof {
                set = set.insert(key@);
            }
        }
        assert(set =~= keys_of(more).difference(keys_of(there@)));
    }
    proof {
        assert(here@.take(here@.len() as int) =~= here@);
        lemma_text_order();
        lemma_is_listing(texts(out@), set, text_order());
    }
    out
}

/// The rows of playtime that are to be opened, in the order of their keys,
/// and the keys of those that are to be closed: a row is opened for each game
/// that appeared, and closed for each that disappeared.
pub fn session_changes(previous: &Vec<Game>, current: &Vec<Game>) -> (r: (Vec<Game>, Vec<String>))
    ensures
        ({
            let appeared = sorted_texts(keys_of(current@).difference(keys_of(previous@)));
            &&& r.0@.len() == appeared.len()
            &&& forall|i: int|
                0 <= i < r.0@.len() ==> (#[trigger] r.0@[i]).key@ == appeared[i] && r.0@[i].name@ == name_of(
                    current@,
                    appeared[i],
                )
        }),
        texts(r.1@) == sorted_texts(keys_of(previous@).difference(keys_of(current@))),
{
    let keys: Vec<String> = keys_only_in(current, previous);
    let mut open: Vec<Game> = Vec::new();
    for i in 0..keys.len()
        invariant
            lists(texts(keys@), keys_of(current@).difference(keys_of(previous@)), text_order()),
            open@.len() == i,
            forall|j: int|
                0 <= j < i ==> (#[trigger] open@[j]).key@ == keys@[j]@ && open@[j].name@ == name_of(
                    current@,
                    keys@[j]@,
                ),
    {
        proof {
            assert(texts(keys@)[i as int] == keys@[i as int]@);
            assert(texts(keys@).contains(keys@[i as int]@));
            assert(keys_of(current@).difference(keys_of(previous@)).contains(keys@[i as int]@));
        }
        let name: String = find_name(current, keys[i].as_str());
        open.push(Game { key: keys[i].clone(), name });
    }
    proof {
        assert forall|i: int| 0 <= i < open@.len() implies (#[trigger] open@[i]).key@ == texts(keys@)[i]
            && open@[i].name@ == name_of(current@, texts(keys@)[i]) by {
            assert(texts(keys@)[i] == keys@[i]@);
        }
    }
    (open, keys_only_in(previous, current))
}

/// How long someone has played a game.
#[derive(Debug)]
pub struct GameStats {
    pub total_seconds: i64,
    pub last_played_at: Option<UtcTime>,
    pub is_new: bool,
}

/// When a game was last played, in RFC 3339.
pub open spec fn played_text(at: Option<UtcTime>) -> Option<Seq<char>> {
    match at {
        Some(t) => rfc3339_text(t.secs, t.nanos),
        None => None,
    }
}

/// Writes into an activity how long its game has been played. `played`: when
/// that was last, in RFC 3339.
pub fn enrich_with(activity: Activity, stats: &GameStats, played: Option<String>) -> (r: Activity)
    ensures
        r == (Activity {
            total_seconds: Some(stats.total_seconds),
            last_played_at: played,
            is_new: Some(stats.is_new),
            ..activity
        }),
{
    let mut r: Activity = activity;
    r.total_seconds = Some(stats.total_seconds);
    r.last_played_at = played;
    r.is_new = Some(stats.is_new);
    r
}

/// Writes into an activity how long its game has been played.
pub fn enrich_playtime(activity: Activity, stats: &GameStats) -> (r: Activity)
    ensures
        optional_text(r.last_played_at) == played_text(stats.last_played_at),
        (stats.last_played_at matches Some(t) && 0 <= t.secs <= LAST_SECOND_OF_9999 && t.nanos
            < 1_000_000_000) ==> r.last_played_at is Some,
        r == (Activity {
            total_seconds: Some(stats.total_seconds),
            last_played_at: r.last_played_at,
            is_new: Some(stats.is_new),
            ..activity
        }),
{
    let played: Option<String> = match &stats.last_played_at {
        Some(t) => t.to_rfc3339(),
        None => None,
    };
    enrich_with(activity, stats, played)
}

/// What members are told of the activities of one of them.
pub fn activity_update(user_id: Uuid, activities: Vec<Activity>) -> (r: OutboundEnvelope)
    ensures
        r.is_message(
            "activity.update"@,
            Payload::ActivityUpdate(ActivityUpdate { user_id, activities }),
        ),
{
    OutboundEnvelope::new(
        "activity.update",
        Payload::ActivityUpdate(ActivityUpdate { user_id, activities }),
    )
}

/// The activities of every member who has any.
pub fn activity_snapshot(users: Vec<ActivityEntry>) -> (r: OutboundEnvelope)
    ensures
        r.is_message(
            "activity.snapshot"@,
            Payload::ActivitySnapshot(ActivitySnapshot { users }),
        ),
{
    OutboundEnvelope::new(
        "activity.snapshot",
        Payload::ActivitySnapshot(ActivitySnapshot { users }),
    )
}

/// A list of games has finitely many keys.
proof fn lemma_keys_finite(games: Seq<Game>)
    ensures
        keys_of(games).finite(),
{
    let keys = games.map_values(|g: Game| g.key@);
    vstd::seq_lib::seq_to_set_is_finite(keys);
    assert(keys.to_set() =~= keys_of(games)) by {
        assert forall|k: Seq<char>| keys.to_set().contains(k) <==> keys_of(games).contains(k) by {
            if keys.contains(k) {
                let i = choose|i: int| 0 <= i < keys.len() && keys[i] == k;
                assert(games[i].key@ == k);
            }
            if keys_of(games).contains(k) {
                let i = choose|i: int| 0 <= i < games.len() && (#[trigger] games[i]).key@ == k;
                assert(keys[i] == k);
            }
        }
    }
}

/// Every row that was opened for a game is closed when the game disappears:
/// no key is both opened and closed, and what is open after the change is
/// what is played.
pub proof fn law_sessions_follow_games(previous: Seq<Game>, current: Seq<Game>, key: Seq<char>)
    ensures
        ({
            let opened = sorted_texts(keys_of(current).difference(keys_of(previous)));
            let closed = sorted_texts(keys_of(previous).difference(keys_of(current)));
            &&& !(opened.contains(key) && closed.contains(key))
            &&& keys_of(current).contains(key) <==> opened.contains(key) || (keys_of(previous).contains(
                key,
            ) && !closed.contains(key))
        }),
{
    lemma_keys_finite(previous);
    lemma_keys_finite(current);
    lemma_text_order();
    let appeared = keys_of(current).difference(keys_of(previous));
    let disappeared = keys_of(previous).difference(keys_of(current));
    lemma_listing_exists(appeared, text_order());
    lemma_listing_exists(disappeared, text_order());
    assert(sorted_texts(appeared).contains(key) <==> appeared.contains(key));
    assert(sorted_texts(disappeared).contains(key) <==> disappeared.contains(key));
}

/// The keys of a list of games are those of its games, and the name of a key is
/// that of the last game that has it.
pub proof fn law_game_names(games: Seq<Game>, i: int, key: Seq<char>)
    requires
        0 <= i < games.len(),
        forall|j: int| i < j < games.len() ==> (#[trigger] games[j]).key@ != games[i].key@,
    ensures
        keys_of(games).contains(games[i].key@),
        name_of(games, games[i].key@) == games[i].name@,
        keys_of(games).contains(key) ==> exists|j: int|
            0 <= j < games.len() && (#[trigger] games[j]).key@ == key,
    decreases games.len(),
{
    if i < games.len() - 1 {
        let some = games.drop_last();
        assert(some[i] == games[i]);
        assert(games[games.len() - 1].key@ != games[i].key@);
        assert forall|j: int| i < j < some.len() implies (#[trigger] some[j]).key@ != some[i].key@ by {
            assert(games[j].key@ != games[i].key@);
        }
        law_game_names(some, i, games[i].key@);
    }
}

/// When a game was last played is written as its moment is, and not at all where
/// it never was.
pub proof fn law_played_text(at: Option<UtcTime>)
    ensures
        at is None ==> played_text(at) is None,
        at is Some ==> played_text(at) == rfc3339_text(at->0.secs, at->0.nanos),
{
}

/// A row of playtime is opened for each game that is played now and was not,
/// under its key and its name, and closed for each that was and is not.
pub proof fn law_sessions_changed(
    previous: &Vec<Game>,
    current: &Vec<Game>,
    r: (Vec<Game>, Vec<String>),
    key: Seq<char>,
)
    requires
        call_ensures(session_changes, (previous, current), r),
    ensures
        ({
            let was = exists|i: int| 0 <= i < previous@.len() && (#[trigger] previous@[i]).key@ == key;
            let is_now = exists|i: int| 0 <= i < current@.len() && (#[trigger] current@[i]).key@ == key;
            &&& (exists|i: int| 0 <= i < r.0@.len() && (#[trigger] r.0@[i]).key@ == key) <==> is_now && !was
            &&& (exists|i: int| 0 <= i < r.1@.len() && (#[trigger] r.1@[i])@ == key) <==> was && !is_now
            &&& forall|i: int|
                0 <= i < r.0@.len() ==> (#[trigger] r.0@[i]).name@ == name_of(current@, r.0@[i].key@)
        }),
{
    let opened = keys_of(current@).difference(keys_of(previous@));
    let closed = keys_of(previous@).difference(keys_of(current@));
    lemma_keys_finite(previous@);
    lemma_keys_finite(current@);
    law_texts_listed(opened, key);
    law_texts_listed(closed, key);
    let (a, b) = (sorted_texts(opened), sorted_texts(closed));
    if a.contains(key) {
        let i = choose|i: int| 0 <= i < a.len() && a[i] == key;
        assert(r.0@[i].key@ == key);
    }
    if exists|i: int| 0 <= i < r.0@.len() && (#[trigger] r.0@[i]).key@ == key {
        let i = choose|i: int| 0 <= i < r.0@.len() && (#[trigger] r.0@[i]).key@ == key;
        assert(a[i] == key);
        assert(a.contains(key));
    }
    assert(texts(r.1@) == b);
    assert(b.len() == r.1@.len());
    if b.contains(key) {
        let i = choose|i: int| 0 <= i < b.len() && b[i] == key;
        assert(texts(r.1@)[i] == key);
        assert(r.1@[i]@ == key);
    }
    if exists|i: int| 0 <= i < r.1@.len() && (#[trigger] r.1@[i])@ == key {
        let i = choose|i: int| 0 <= i < r.1@.len() && (#[trigger] r.1@[i])@ == key;
        assert(texts(r.1@)[i] == key);
        assert(b.contains(key));
    }
}

/// An activity says how long its game was played, when last, and whether it is
/// new; all else in it stays.
pub proof fn law_playtime_written(activity: Activity, stats: &GameStats, r: Activity)
    requires
        call_ensures(enrich_playtime, (activity, stats), r),
    ensures
        r.total_seconds == Some(stats.total_seconds),
        r.is_new == Some(stats.is_new),
        stats.last_played_at is None ==> r.last_played_at is None,
        r.last_played_at is Some ==> stats.last_played_at is Some && rfc3339_text(
            stats.last_played_at->0.secs,
            stats.last_played_at->0.nanos,
        ) == Some(r.last_played_at->0@),
        r.kind == activity.kind,
        r.name == activity.name,
        r.details == activity.details,
        r.state == activity.state,
        r.started_at == activity.started_at,
        r.asset_image == activity.asset_image,
        r.asset_text == activity.asset_text,
{
}

/// What members are told of activities: whose they are, and which.
pub proof fn law_activities_told(
    user_id: Uuid,
    activities: Vec<Activity>,
    one: OutboundEnvelope,
    users: Vec<ActivityEntry>,
    all: OutboundEnvelope,
)
    requires
        call_ensures(activity_update, (user_id, activities), one),
        call_ensures(activity_snapshot, (users,), all),
    ensures
        one.v == 1 && one.op@ == "activity.update"@ && one.data is ActivityUpdate,
        one.data->ActivityUpdate_0.user_id == user_id,
        one.data->ActivityUpdate_0.activities == activities,
        all.v == 1 && all.op@ == "activity.snapshot"@ && all.data is ActivitySnapshot,
        all.data->ActivitySnapshot_0.users == users,
{
}

} // verus!
