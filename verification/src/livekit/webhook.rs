//! What LiveKit reports as it happens.

use vstd::prelude::*;

use crate::clock::Reading;
use crate::ident::{parse_uuid, uuid_of_text, Uuid};
use crate::text::{
    copy_optional, joined_text, optional_text, same_text, signed_decimal, signed_decimal_text,
};
use crate::voice::laws::{law_exclusive_join, law_seen_event_known};
use crate::voice::model::{ChangeModel, RegistryModel};
use crate::voice::registry::{change_list, VoiceRegistry};
use crate::voice::steps::has_room;
use crate::voice::types::{ChannelId, ParticipantSid, RoomChange, TrackSid, TrackSource, UserId};

verus! {

/// How old, in seconds, an event may be before its channel is confirmed too.
pub const LATE_AFTER_SECS: i64 = 60;

/// How long after a late event its channel is confirmed, in milliseconds.
pub const LATE_RECONCILE_MS: u64 = 1_000;

/// How long after the end of a room its channel is confirmed, in
/// milliseconds.
pub const FINISHED_RECONCILE_MS: u64 = 500;

/// An event.
#[derive(Debug)]
pub struct WebhookEvent {
    pub event: String,
    pub id: Option<String>,
    /// When it happened, in seconds since 1970-01-01T00:00:00Z.
    pub created_at: Option<i64>,
    pub room: Option<Room>,
    pub participant: Option<Participant>,
    pub track: Option<Track>,
}

/// The room of an event.
#[derive(Debug)]
pub struct Room {
    pub name: String,
}

/// The participant of an event.
#[derive(Debug)]
pub struct Participant {
    pub identity: String,
    pub sid: Option<String>,
    pub state: Option<String>,
    pub permission: Option<ParticipantPermission>,
}

/// What a participant may do. A hidden one is a spectator.
#[derive(Debug, Clone, Copy, PartialEq, Eq, Structural)]
pub struct ParticipantPermission {
    pub hidden: bool,
    pub can_publish: bool,
}

/// The track of an event.
#[derive(Debug)]
pub struct Track {
    pub source: String,
    pub sid: Option<String>,
    pub muted: bool,
}

/// What became of an event.
#[derive(Debug, Clone, Copy, PartialEq, Eq, Structural)]
pub enum Verdict {
    /// It was seen before.
    Duplicate,
    /// Its room is none of ours.
    UnparsableRoom,
    /// It is about a spectator.
    HiddenParticipant,
    /// It does not say who joined or left, or in which session.
    MissingSid,
    /// It is about a track that cannot be shown.
    Untrackable,
    /// The room may have been joined again since: its channel is confirmed
    /// instead.
    RoomFinished,
    /// It is of no concern.
    Unhandled,
    /// It was applied; that may have changed nothing.
    Applied,
}

/// What is to be done about an event.
#[derive(Debug)]
pub struct WebhookOutcome {
    pub verdict: Verdict,
    /// What changed, to be published in this order.
    pub changes: Vec<RoomChange>,
    /// The channels that are to be confirmed, each after so many
    /// milliseconds.
    pub reconcile: Vec<(ChannelId, u64)>,
}

/// A part of a key: the text, or a hyphen where there is none.
pub open spec fn key_part(s: Option<Seq<char>>) -> Seq<char> {
    match s {
        Some(t) => t,
        None => "-"@,
    }
}

impl WebhookEvent {
    /// The name of the room.
    pub open spec fn room_name(&self) -> Option<Seq<char>> {
        match self.room {
            Some(r) => Some(r.name@),
            None => None,
        }
    }

    /// The identity of the participant.
    pub open spec fn identity(&self) -> Option<Seq<char>> {
        match self.participant {
            Some(p) => Some(p.identity@),
            None => None,
        }
    }

    /// The session of the participant.
    pub open spec fn session(&self) -> Option<Seq<char>> {
        match self.participant {
            Some(p) => optional_text(p.sid),
            None => None,
        }
    }

    /// The SID of the track.
    pub open spec fn track_sid(&self) -> Option<Seq<char>> {
        match self.track {
            Some(t) => optional_text(t.sid),
            None => None,
        }
    }

    /// The source of the track, if it is shown.
    pub open spec fn source(&self) -> Option<TrackSource> {
        match self.track {
            Some(t) => TrackSource::named(t.source@),
            None => None,
        }
    }

    /// Is the participant a spectator?
    pub open spec fn is_hidden(&self) -> bool {
        self.participant matches Some(p) && (p.permission matches Some(perm) && perm.hidden)
    }

    /// When it happened, or 0 where it does not say.
    pub open spec fn moment(&self) -> int {
        match self.created_at {
            Some(at) => at as int,
            None => 0,
        }
    }

    /// The key by which a second delivery is told: the event and its
    /// identifier, or all that it is about where it has none.
    pub open spec fn key(&self) -> Seq<char> {
        match self.id {
            Some(id) => self.event@ + ":"@ + id@,
            None => self.event@ + ":"@ + key_part(self.room_name()) + ":"@ + key_part(self.session()) + ":"@
                + key_part(self.track_sid()) + ":"@ + signed_decimal(self.moment()),
        }
    }

    /// Did it happen more than `LATE_AFTER_SECS` ago?
    pub open spec fn is_late_at(&self, now_secs: i64) -> bool {
        self.created_at matches Some(at) && now_secs - at > LATE_AFTER_SECS
    }

    /// The key by which a second delivery is told.
    pub fn dedupe_key(&self) -> (r: String)
        ensures
            r@ == self.key(),
    {
        let mut key: String = joined_text(self.event.as_str(), ":");
        match &self.id {
            Some(id) => {
                key.append(id.as_str());
                key
            },
            None => {
                match &self.room {
                    Some(r) => key.append(r.name.as_str()),
                    None => key.append("-"),
                }
                key.append(":");
                match &self.participant {
                    Some(p) => match &p.sid {
                        Some(s) => key.append(s.as_str()),
                        None => key.append("-"),
                    },
                    None => key.append("-"),
                }
                key.append(":");
                match &self.track {
                    Some(t) => match &t.sid {
                        Some(s) => key.append(s.as_str()),
                        None => key.append("-"),
                    },
                    None => key.append("-"),
                }
                key.append(":");
                let at: i64 = match self.created_at {
                    Some(at) => at,
                    None => 0,
                };
                let moment: String = signed_decimal_text(at);
                key.append(moment.as_str());
                key
            },
        }
    }

    /// Did it happen more than `LATE_AFTER_SECS` ago?
    pub fn is_late(&self, now_secs: i64) -> (r: bool)
        ensures
            r == self.is_late_at(now_secs),
    {
        match self.created_at {
            Some(at) => now_secs as i128 - at as i128 > LATE_AFTER_SECS as i128,
            None => false,
        }
    }
}

/// What an event about `channel` and `user` makes of the registry.
pub open spec fn event_effect(
    m: RegistryModel,
    event: WebhookEvent,
    channel: Uuid,
    user: Option<Uuid>,
    now: Reading,
) -> (Verdict, RegistryModel, Seq<ChangeModel>) {
    let quiet = Seq::<ChangeModel>::empty();
    if event.event@ == "participant_joined"@ {
        if user is Some && event.session() is Some {
            let (after, changes) = m.joined_exclusive(channel, user->0, event.session()->0, now);
            (Verdict::Applied, after, changes)
        } else {
            (Verdict::MissingSid, m, quiet)
        }
    } else if event.event@ == "participant_left"@ {
        if user is Some && event.session() is Some {
            let (after, change) = m.left(channel, user->0, event.session()->0);
            (Verdict::Applied, after, seq![change])
        } else {
            (Verdict::MissingSid, m, quiet)
        }
    } else if event.event@ == "track_published"@ {
        if user is Some && event.track_sid() is Some && event.source() is Some {
            let (after, change) = m.published(
                channel,
                user->0,
                event.session(),
                event.track_sid()->0,
                event.source()->0,
                now,
            );
            (Verdict::Applied, after, seq![change])
        } else {
            (Verdict::Untrackable, m, quiet)
        }
    } else if event.event@ == "track_unpublished"@ {
        if event.track_sid() is Some {
            let (after, change) = m.unpublished(channel, event.track_sid()->0);
            (Verdict::Applied, after, seq![change])
        } else {
            (Verdict::Untrackable, m, quiet)
        }
    } else if event.event@ == "track_muted"@ || event.event@ == "track_unmuted"@ {
        if event.track_sid() is Some {
            let (after, change) = m.track_muted(
                channel,
                event.track_sid()->0,
                event.event@ == "track_muted"@,
            );
            (Verdict::Applied, after, seq![change])
        } else {
            (Verdict::Untrackable, m, quiet)
        }
    } else if event.event@ == "room_finished"@ {
        (Verdict::RoomFinished, m, quiet)
    } else {
        (Verdict::Unhandled, m, quiet)
    }
}

/// When the channel of an event is confirmed because of it.
pub open spec fn event_reconcile(event: WebhookEvent, channel: Uuid, now: Reading) -> Seq<(Uuid, u64)> {
    let finished = if event.event@ == "room_finished"@ {
        seq![(channel, FINISHED_RECONCILE_MS)]
    } else {
        Seq::empty()
    };
    if event.is_late_at(now.utc.secs) {
        finished.push((channel, LATE_RECONCILE_MS))
    } else {
        finished
    }
}

/// What is done about an event whose room was read as `channel` and whose
/// identity as `user`.
pub open spec fn handled(
    m: RegistryModel,
    event: WebhookEvent,
    channel: Option<Uuid>,
    user: Option<Uuid>,
    now: Reading,
    after: RegistryModel,
    outcome: WebhookOutcome,
) -> bool {
    let fresh = m.having_seen(event.key());
    if m.seen.contains(event.key()) {
        &&& after == m
        &&& outcome.verdict == Verdict::Duplicate
        &&& outcome.changes@.len() == 0
        &&& outcome.reconcile@.len() == 0
    } else if channel is None {
        &&& after == fresh
        &&& outcome.verdict == Verdict::UnparsableRoom
        &&& outcome.changes@.len() == 0
        &&& outcome.reconcile@.len() == 0
    } else if event.is_hidden() {
        &&& after == fresh
        &&& outcome.verdict == Verdict::HiddenParticipant
        &&& outcome.changes@.len() == 0
        &&& outcome.reconcile@.len() == 0
    } else {
        &&& (outcome.verdict, after, change_list(outcome.changes@)) == event_effect(
            fresh,
            event,
            channel->0,
            user,
            now,
        )
        &&& outcome.reconcile@ == event_reconcile(event, channel->0, now)
    }
}

/// Is there room to count what an event about `channel` and `user` does to the
/// registry?
pub open spec fn can_apply(m: RegistryModel, event: WebhookEvent, channel: Uuid, user: Option<Uuid>) -> bool {
    if event.event@ == "participant_joined"@ {
        user is Some && event.session() is Some ==> m.can_move(channel, user->0)
    } else if event.event@ == "participant_left"@ {
        user is Some && event.session() is Some ==> m.can_count(channel)
    } else if event.event@ == "track_published"@ {
        user is Some && event.track_sid() is Some && event.source() is Some ==> m.can_publish(
            channel,
            user->0,
        )
    } else if event.event@ == "track_unpublished"@ || event.event@ == "track_muted"@ || event.event@
        == "track_unmuted"@ {
        event.track_sid() is Some ==> m.can_count(channel)
    } else {
        true
    }
}

/// Is there room to count what is done about an event whose room was read as
/// `channel` and whose identity as `user`?
pub open spec fn can_handle(
    m: RegistryModel,
    event: WebhookEvent,
    channel: Option<Uuid>,
    user: Option<Uuid>,
) -> bool {
    ||| m.seen.contains(event.key())
    ||| channel is None
    ||| event.is_hidden()
    ||| can_apply(m, event, channel->0, user)
}

/// Is there room to count what an event does to the registry?
fn fits(registry: &VoiceRegistry, event: &WebhookEvent, channel_id: ChannelId, user_id: Option<UserId>) -> (r: bool)
    requires
        registry.wf(),
    ensures
        r == can_apply(registry@, *event, channel_id, user_id),
{
    let has_session: bool = match &event.participant {
        Some(p) => p.sid.is_some(),
        None => false,
    };
    let has_sid: bool = match &event.track {
        Some(t) => t.sid.is_some(),
        None => false,
    };
    let kind: &str = event.event.as_str();
    if same_text(kind, "participant_joined") {
        match user_id {
            Some(user) => !has_session || registry.can_move(channel_id, user),
            None => true,
        }
    } else if same_text(kind, "participant_left") {
        user_id.is_none() || !has_session || registry.can_count(channel_id)
    } else if same_text(kind, "track_published") {
        let has_source: bool = match &event.track {
            Some(t) => TrackSource::parse(t.source.as_str()).is_some(),
            None => false,
        };
        match user_id {
            Some(user) => !has_sid || !has_source || registry.can_publish(channel_id, user),
            None => true,
        }
    } else if same_text(kind, "track_unpublished") || same_text(kind, "track_muted") || same_text(
        kind,
        "track_unmuted",
    ) {
        !has_sid || registry.can_count(channel_id)
    } else {
        true
    }
}

/// Applies an event to the registry. `participant_left` and what is about a
/// track change nothing where they are out of date.
fn apply(
    registry: &mut VoiceRegistry,
    event: &WebhookEvent,
    channel_id: ChannelId,
    user_id: Option<UserId>,
    now: Reading,
) -> (r: (Verdict, Vec<RoomChange>))
    requires
        old(registry).wf(),
        can_apply(old(registry)@, *event, channel_id, user_id),
    ensures
        final(registry).wf(),
        final(registry).clock() == old(registry).clock(),
        (r.0, final(registry)@, change_list(r.1@)) == event_effect(
            old(registry)@,
            *event,
            channel_id,
            user_id,
            now,
        ),
{
    proof {
        assert(change_list(Seq::empty()) =~= Seq::empty());
    }
    let session: Option<ParticipantSid> = match &event.participant {
        Some(p) => copy_optional(&p.sid),
        None => None,
    };
    let track_sid: Option<TrackSid> = match &event.track {
        Some(t) => copy_optional(&t.sid),
        None => None,
    };
    let none: Vec<RoomChange> = Vec::new();
    proof {
        assert(change_list(none@) =~= Seq::empty());
    }
    if same_text(event.event.as_str(), "participant_joined") {
        match (user_id, session) {
            (Some(user), Some(sid)) => (
                Verdict::Applied,
                registry.webhook_participant_joined_exclusive_at(channel_id, user, sid, now),
            ),
            _ => (Verdict::MissingSid, none),
        }
    } else if same_text(event.event.as_str(), "participant_left") {
        match (user_id, session) {
            (Some(user), Some(sid)) => {
                let change: RoomChange = registry.webhook_participant_left(channel_id, user, sid);
                one_change(Verdict::Applied, change)
            },
            _ => (Verdict::MissingSid, none),
        }
    } else if same_text(event.event.as_str(), "track_published") {
        let source: Option<TrackSource> = match &event.track {
            Some(t) => TrackSource::parse(t.source.as_str()),
            None => None,
        };
        match (user_id, track_sid, source) {
            (Some(user), Some(sid), Some(source)) => {
                let change: RoomChange = registry.webhook_track_published_at(
                    channel_id,
                    user,
                    session,
                    sid,
                    source,
                    now,
                );
                one_change(Verdict::Applied, change)
            },
            _ => (Verdict::Untrackable, none),
        }
    } else if same_text(event.event.as_str(), "track_unpublished") {
        match track_sid {
            Some(sid) => {
                let change: RoomChange = registry.webhook_track_unpublished(channel_id, sid.as_str());
                one_change(Verdict::Applied, change)
            },
            None => (Verdict::Untrackable, none),
        }
    } else if same_text(event.event.as_str(), "track_muted") || same_text(
        event.event.as_str(),
        "track_unmuted",
    ) {
        match track_sid {
            Some(sid) => {
                let muted: bool = same_text(event.event.as_str(), "track_muted");
                let change: RoomChange = registry.webhook_track_muted(channel_id, sid.as_str(), muted);
                one_change(Verdict::Applied, change)
            },
            None => (Verdict::Untrackable, none),
        }
    } else if same_text(event.event.as_str(), "room_finished") {
        (Verdict::RoomFinished, none)
    } else {
        (Verdict::Unhandled, none)
    }
}

/// A verdict with one change.
fn one_change(verdict: Verdict, change: RoomChange) -> (r: (Verdict, Vec<RoomChange>))
    ensures
        r.0 == verdict,
        change_list(r.1@) == seq![change@],
{
    let ghost shown = change@;
    let changes: Vec<RoomChange> = vec![change];
    assert(change_list(changes@) =~= seq![shown]);
    (verdict, changes)
}

/// Is the event about a spectator?
fn is_hidden(event: &WebhookEvent) -> (r: bool)
    ensures
        r == event.is_hidden(),
{
    match &event.participant {
        Some(p) => match p.permission {
            Some(perm) => perm.hidden,
            None => false,
        },
        None => false,
    }
}

/// Handles an event whose room was read as `channel_id` and whose identity as
/// `user_id`, at a given moment.
pub fn handle(
    registry: &mut VoiceRegistry,
    event: &WebhookEvent,
    channel_id: Option<ChannelId>,
    user_id: Option<UserId>,
    now: Reading,
) -> (r: WebhookOutcome)
    requires
        old(registry).wf(),
        can_handle(old(registry)@, *event, channel_id, user_id),
    ensures
        final(registry).wf(),
        final(registry).clock() == old(registry).clock(),
        handled(old(registry)@, *event, channel_id, user_id, now, final(registry)@, r),
{
    let key: String = event.dedupe_key();
    let ghost m = registry@;
    if registry.is_duplicate_event(key.as_str()) {
        return WebhookOutcome {
            verdict: Verdict::Duplicate,
            changes: Vec::new(),
            reconcile: Vec::new(),
        };
    }
    proof {
        assert forall|c: Uuid| #[trigger] registry@.counter(c) == m.counter(c) by {}
        if channel_id is Some && user_id is Some {
            let (c, u) = (channel_id->0, user_id->0);
            assert(registry@.elsewhere(c, u) =~= m.elsewhere(c, u));
            assert(registry@.opened(c) == m.opened(c));
            if m.can_count_in(m.elsewhere(c, u)) {
                assert forall|d: Uuid| #[trigger] registry@.elsewhere(c, u).contains(d) implies registry@.can_count(
                    d,
                ) by {
                    assert(m.can_count(d));
                }
            }
        }
    }
    match channel_id {
        Some(channel) => {
            if is_hidden(event) {
                return WebhookOutcome {
                    verdict: Verdict::HiddenParticipant,
                    changes: Vec::new(),
                    reconcile: Vec::new(),
                };
            }
            let (verdict, changes) = apply(registry, event, channel, user_id, now);
            let mut reconcile: Vec<(ChannelId, u64)> = Vec::new();
            if same_text(event.event.as_str(), "room_finished") {
                reconcile.push((channel, FINISHED_RECONCILE_MS));
            }
            if event.is_late(now.utc.secs) {
                reconcile.push((channel, LATE_RECONCILE_MS));
            }
            assert(reconcile@ =~= event_reconcile(*event, channel, now));
            WebhookOutcome { verdict, changes, reconcile }
        },
        None => WebhookOutcome {
            verdict: Verdict::UnparsableRoom,
            changes: Vec::new(),
            reconcile: Vec::new(),
        },
    }
}

/// What a text is read as, where there is one.
pub open spec fn read_as(s: Option<Seq<char>>) -> Option<Uuid> {
    match s {
        Some(t) => uuid_of_text(t),
        None => None,
    }
}

/// Handles an event. A second delivery does nothing; spectators enter no
/// roster; a late event is applied, and its channel is confirmed too; the end
/// of a room takes nobody out. `None`: a channel that the event changes has no
/// room left to count that.
pub fn webhook(registry: &mut VoiceRegistry, event: &WebhookEvent) -> (r: Option<WebhookOutcome>)
    requires
        old(registry).wf(),
    ensures
        final(registry).wf(),
        final(registry).clock() == old(registry).clock(),
        r is Some <==> can_handle(
            old(registry)@,
            *event,
            read_as(event.room_name()),
            read_as(event.identity()),
        ),
        match r {
            Some(outcome) => exists|now: Reading|
                now.is_plausible() && #[trigger] handled(
                    old(registry)@,
                    *event,
                    read_as(event.room_name()),
                    read_as(event.identity()),
                    now,
                    final(registry)@,
                    outcome,
                ),
            None => final(registry)@ == old(registry)@,
        },
{
    let channel_id: Option<ChannelId> = match &event.room {
        Some(room) => parse_uuid(room.name.as_str()),
        None => None,
    };
    let user_id: Option<UserId> = match &event.participant {
        Some(p) => parse_uuid(p.identity.as_str()),
        None => None,
    };
    let now: Reading = registry.read_clock();
    let key: String = event.dedupe_key();
    let countable: bool = match channel_id {
        Some(channel) => registry.has_seen(key.as_str()) || is_hidden(event) || fits(
            registry,
            event,
            channel,
            user_id,
        ),
        None => true,
    };
    if countable {
        Some(handle(registry, event, channel_id, user_id, now))
    } else {
        None
    }
}

/// A second delivery of an event does nothing.
pub proof fn law_second_delivery_does_nothing(
    m: RegistryModel,
    event: WebhookEvent,
    channel: Option<Uuid>,
    user: Option<Uuid>,
    now: Reading,
    after: RegistryModel,
    outcome: WebhookOutcome,
    later: Reading,
    again: RegistryModel,
    second: WebhookOutcome,
)
    requires
        m.valid(),
        handled(m, event, channel, user, now, after, outcome),
        handled(after, event, channel, user, later, again, second),
    ensures
        again == after,
        second.verdict == Verdict::Duplicate,
        second.changes@.len() == 0,
        second.reconcile@.len() == 0,
{
    crate::voice::laws::law_seen_event_known(m, event.key());
    let fresh = m.having_seen(event.key());
    assert(after.seen == fresh.seen || after == m);
}

/// The end of a room takes nobody out: its channel is confirmed instead.
pub proof fn law_room_finished_takes_nobody_out(
    m: RegistryModel,
    event: WebhookEvent,
    channel: Uuid,
    user: Option<Uuid>,
    now: Reading,
    after: RegistryModel,
    outcome: WebhookOutcome,
)
    requires
        event.event@ == "room_finished"@,
        handled(m, event, Some(channel), user, now, after, outcome),
    ensures
        after.rooms == m.rooms,
        outcome.changes@.len() == 0,
        !m.seen.contains(event.key()) && !event.is_hidden() ==> outcome.reconcile@.contains(
            (channel, FINISHED_RECONCILE_MS),
        ),
{
    reveal_strlit("room_finished");
    reveal_strlit("participant_joined");
    reveal_strlit("participant_left");
    reveal_strlit("track_published");
    reveal_strlit("track_unpublished");
    reveal_strlit("track_muted");
    reveal_strlit("track_unmuted");
    assert("room_finished"@[0] == 'r');
    assert("track_unmuted"@[0] == 't');
    assert("participant_joined"@.len() == 18);
    assert("participant_left"@.len() == 16);
    assert("track_published"@.len() == 15);
    assert("track_unpublished"@.len() == 17);
    assert("track_muted"@.len() == 11);
    if !m.seen.contains(event.key()) && !event.is_hidden() {
        assert(change_list(outcome.changes@).len() == 0);
        assert(outcome.reconcile@[0] == (channel, FINISHED_RECONCILE_MS));
    }
}

/// A spectator enters no roster.
pub proof fn law_spectators_stay_out(
    m: RegistryModel,
    event: WebhookEvent,
    channel: Option<Uuid>,
    user: Option<Uuid>,
    now: Reading,
    after: RegistryModel,
    outcome: WebhookOutcome,
)
    requires
        event.is_hidden(),
        handled(m, event, channel, user, now, after, outcome),
    ensures
        after.rooms == m.rooms,
        after.retired == m.retired,
        outcome.changes@.len() == 0,
{
}

/// A late event is applied as any other, and its channel is confirmed too.
pub proof fn law_late_event_confirmed(
    m: RegistryModel,
    event: WebhookEvent,
    channel: Uuid,
    user: Option<Uuid>,
    now: Reading,
    after: RegistryModel,
    outcome: WebhookOutcome,
)
    requires
        !m.seen.contains(event.key()),
        !event.is_hidden(),
        event.is_late_at(now.utc.secs),
        handled(m, event, Some(channel), user, now, after, outcome),
    ensures
        outcome.reconcile@.contains((channel, LATE_RECONCILE_MS)),
        (outcome.verdict, after, change_list(outcome.changes@)) == event_effect(
            m.having_seen(event.key()),
            event,
            channel,
            user,
            now,
        ),
{
    let last = outcome.reconcile@.len() - 1;
    assert(outcome.reconcile@[last] == (channel, LATE_RECONCILE_MS));
}

/// What an event says: the name of its room, the identity and the session of
/// its participant, the SID and the source of its track, whether the participant
/// is hidden, and when it happened.
pub proof fn law_event_parts(event: WebhookEvent)
    ensures
        event.room_name() is Some <==> event.room is Some,
        event.room is Some ==> event.room_name()->0 == event.room->0.name@,
        event.identity() is Some <==> event.participant is Some,
        event.participant is Some ==> event.identity()->0 == event.participant->0.identity@,
        event.session() is Some <==> event.participant is Some && event.participant->0.sid is Some,
        event.session() is Some ==> event.session()->0 == event.participant->0.sid->0@,
        event.track_sid() is Some <==> event.track is Some && event.track->0.sid is Some,
        event.track_sid() is Some ==> event.track_sid()->0 == event.track->0.sid->0@,
        event.track is None ==> event.source() is None,
        event.track is Some ==> event.source() == TrackSource::named(event.track->0.source@),
        event.is_hidden() <==> event.participant is Some && event.participant->0.permission is Some
            && event.participant->0.permission->0.hidden,
        event.created_at is None ==> event.moment() == 0,
        event.created_at is Some ==> event.moment() == event.created_at->0,
{
}

/// An event that has an identifier is told by its kind and that; any other one
/// by its kind, room, session, track and moment, with a hyphen for each that it
/// does not name.
pub proof fn law_event_key(event: WebhookEvent)
    ensures
        ({
            let part = |s: Option<Seq<char>>|
                if s is Some {
                    s->0
                } else {
                    "-"@
                };
            &&& event.id is Some ==> event.key() == event.event@ + ":"@ + event.id->0@
            &&& event.id is None ==> event.key() == event.event@ + ":"@ + part(event.room_name()) + ":"@
                + part(event.session()) + ":"@ + part(event.track_sid()) + ":"@ + signed_decimal(
                event.moment(),
            )
        }),
{
}

/// An event is late if it says when it happened, and that is more than a minute
/// ago.
pub proof fn law_event_late(event: WebhookEvent, now_secs: i64)
    ensures
        event.is_late_at(now_secs) <==> event.created_at is Some && now_secs - event.created_at->0 > 60,
{
}

/// What is done about nothing: an event that was seen before, one whose room is
/// none of ours, and one about a spectator. The last two are remembered.
pub proof fn law_event_passed_over(
    m: RegistryModel,
    event: WebhookEvent,
    channel: Option<Uuid>,
    user: Option<Uuid>,
    now: Reading,
    after: RegistryModel,
    outcome: WebhookOutcome,
)
    requires
        handled(m, event, channel, user, now, after, outcome),
    ensures
        ({
            let known = m.seen.contains(event.key());
            let concerns = !known && channel is Some && !event.is_hidden();
            &&& outcome.verdict == Verdict::Duplicate <==> known
            &&& outcome.verdict == Verdict::UnparsableRoom <==> !known && channel is None
            &&& outcome.verdict == Verdict::HiddenParticipant <==> !known && channel is Some
                && event.is_hidden()
            &&& known ==> after == m
            &&& !known && !concerns ==> after == m.having_seen(event.key())
            &&& !concerns ==> outcome.changes@.len() == 0 && outcome.reconcile@.len() == 0
        }),
{
}

/// What each kind of event does, once it concerns a channel: it is remembered,
/// and a join is an exclusive one, under the identity and the session that the
/// event names; a leave, a publication, its end and its muting are of the very
/// participant or track that it names. Where it does not name what it takes,
/// nothing is done. What it does is reported, and nothing else.
pub proof fn law_event_applied(
    m: RegistryModel,
    event: WebhookEvent,
    channel: Uuid,
    user: Option<Uuid>,
    now: Reading,
    after: RegistryModel,
    outcome: WebhookOutcome,
)
    requires
        handled(m, event, Some(channel), user, now, after, outcome),
        !m.seen.contains(event.key()),
        !event.is_hidden(),
    ensures
        ({
            let fresh = m.having_seen(event.key());
            let kind = event.event@;
            let ds = change_list(outcome.changes@);
            let session = event.session();
            let sid = event.track_sid();
            let idle = after == fresh && ds.len() == 0;
            &&& kind == "participant_joined"@ && (user is None || session is None) ==> idle
                && outcome.verdict == Verdict::MissingSid
            &&& kind == "participant_joined"@ && user is Some && session is Some ==> {
                &&& (after, ds) == fresh.joined_exclusive(channel, user->0, session->0, now)
                &&& outcome.verdict == Verdict::Applied
            }
            &&& kind == "participant_left"@ && (user is None || session is None) ==> idle
                && outcome.verdict == Verdict::MissingSid
            &&& kind == "participant_left"@ && user is Some && session is Some ==> {
                &&& after == fresh.left(channel, user->0, session->0).0
                &&& ds.len() == 1 && ds[0] == fresh.left(channel, user->0, session->0).1
                &&& outcome.verdict == Verdict::Applied
            }
            &&& kind == "track_published"@ && (user is None || sid is None || event.source() is None) ==> idle
                && outcome.verdict == Verdict::Untrackable
            &&& kind == "track_published"@ && user is Some && sid is Some && event.source() is Some ==> {
                let step = fresh.published(channel, user->0, session, sid->0, event.source()->0, now);
                &&& after == step.0
                &&& ds.len() == 1 && ds[0] == step.1
                &&& outcome.verdict == Verdict::Applied
            }
            &&& kind == "track_unpublished"@ && sid is None ==> idle && outcome.verdict
                == Verdict::Untrackable
            &&& kind == "track_unpublished"@ && sid is Some ==> {
                &&& after == fresh.unpublished(channel, sid->0).0
                &&& ds.len() == 1 && ds[0] == fresh.unpublished(channel, sid->0).1
                &&& outcome.verdict == Verdict::Applied
            }
            &&& (kind == "track_muted"@ || kind == "track_unmuted"@) && sid is None ==> idle
                && outcome.verdict == Verdict::Untrackable
            &&& kind == "track_muted"@ && sid is Some ==> {
                &&& after == fresh.track_muted(channel, sid->0, true).0
                &&& ds.len() == 1 && ds[0] == fresh.track_muted(channel, sid->0, true).1
                &&& outcome.verdict == Verdict::Applied
            }
            &&& kind == "track_unmuted"@ && sid is Some ==> {
                &&& after == fresh.track_muted(channel, sid->0, false).0
                &&& ds.len() == 1 && ds[0] == fresh.track_muted(channel, sid->0, false).1
                &&& outcome.verdict == Verdict::Applied
            }
            &&& kind == "room_finished"@ ==> idle && outcome.verdict == Verdict::RoomFinished
            &&& kind != "participant_joined"@ && kind != "participant_left"@ && kind != "track_published"@
                && kind != "track_unpublished"@ && kind != "track_muted"@ && kind != "track_unmuted"@ && kind
                != "room_finished"@ ==> idle && outcome.verdict == Verdict::Unhandled
        }),
{
    lemma_kinds_differ();
}

/// No two kinds of event have one name.
proof fn lemma_kinds_differ()
    ensures
        "participant_joined"@.len() == 18,
        "participant_left"@.len() == 16,
        "track_published"@.len() == 15,
        "track_unpublished"@.len() == 17,
        "track_muted"@.len() == 11,
        "track_unmuted"@.len() == 13,
        "room_finished"@.len() == 13,
        "track_unmuted"@[0] == 't',
        "room_finished"@[0] == 'r',
{
    reveal_strlit("participant_joined");
    reveal_strlit("participant_left");
    reveal_strlit("track_published");
    reveal_strlit("track_unpublished");
    reveal_strlit("track_muted");
    reveal_strlit("track_unmuted");
    reveal_strlit("room_finished");
}

/// When a channel is confirmed because of an event about it: half a second after
/// its room ended, and a second after an event that came late, and otherwise not
/// at all.
pub proof fn law_event_confirms(
    m: RegistryModel,
    event: WebhookEvent,
    channel: Uuid,
    user: Option<Uuid>,
    now: Reading,
    after: RegistryModel,
    outcome: WebhookOutcome,
    c: Uuid,
    ms: u64,
)
    requires
        handled(m, event, Some(channel), user, now, after, outcome),
        !m.seen.contains(event.key()),
        !event.is_hidden(),
    ensures
        ({
            let late = event.created_at is Some && now.utc.secs - event.created_at->0 > 60;
            outcome.reconcile@.contains((c, ms)) <==> c == channel && ((ms == 500 && event.event@
                == "room_finished"@) || (ms == 1000 && late))
        }),
{
    let r = outcome.reconcile@;
    if event.event@ == "room_finished"@ {
        assert(r[0] == (channel, 500u64));
    }
    if event.is_late_at(now.utc.secs) {
        assert(r[r.len() - 1] == (channel, 1000u64));
    }
}

/// The room and the identity of an event are read as identifiers, where there
/// are any.
pub proof fn law_read_as(s: Option<Seq<char>>)
    ensures
        s is None ==> read_as(s) is None,
        s is Some ==> read_as(s) == uuid_of_text(s->0),
{
}

/// While no channel that the event changes has come to the end of its versions,
/// an event is handled: two more versions are always room enough, and an event
/// that changes nothing needs none.
pub proof fn law_event_has_room(
    m: RegistryModel,
    event: WebhookEvent,
    channel: Option<Uuid>,
    user: Option<Uuid>,
)
    ensures
        has_room(m, 2) ==> can_handle(m, event, channel, user),
        channel is None || event.is_hidden() || m.seen.contains(event.key()) || event.event@
            == "room_finished"@ ==> can_handle(m, event, channel, user),
        channel is Some && can_handle(m, event, channel, user) && !event.is_hidden() && !m.seen.contains(
            event.key(),
        ) ==> {
            let c = channel->0;
            &&& event.event@ == "participant_joined"@ && user is Some && event.session() is Some ==> m.counter(
                c,
            ) < u64::MAX
            &&& event.event@ == "participant_left"@ && user is Some && event.session() is Some ==> m.counter(
                c,
            ) < u64::MAX
        },
{
    lemma_kinds_differ();
    if has_room(m, 2) {
        assert forall|c: Uuid| #[trigger] m.can_count(c) by {
            assert(m.counter(c) + 2 <= u64::MAX);
        }
        if channel is Some {
            assert(m.counter(channel->0) + 2 <= u64::MAX);
            assert(m.can_count(channel->0));
        }
    }
}

/// The channel that the room of an event names.
pub open spec fn named_channel(event: WebhookEvent) -> Option<Uuid> {
    if event.room is Some {
        uuid_of_text(event.room->0.name@)
    } else {
        None
    }
}

/// The user that the participant of an event names.
pub open spec fn named_user(event: WebhookEvent) -> Option<Uuid> {
    if event.participant is Some {
        uuid_of_text(event.participant->0.identity@)
    } else {
        None
    }
}

/// An event is handled while its channels have room to count, and what is done
/// about it is what is done about an event of the channel and of the user that
/// it names.
pub proof fn law_event_handled(registry: &mut VoiceRegistry, event: &WebhookEvent, r: Option<WebhookOutcome>)
    requires
        call_ensures(webhook, (registry, event), r),
    ensures
        has_room(old(registry)@, 2) ==> r is Some,
        r is None ==> final(registry)@ == old(registry)@,
        r is Some ==> exists|now: Reading|
            now.is_plausible() && #[trigger] handled(
                old(registry)@,
                *event,
                named_channel(*event),
                named_user(*event),
                now,
                final(registry)@,
                r->0,
            ),
{
    law_event_parts(*event);
    law_read_as(event.room_name());
    law_read_as(event.identity());
    let m = old(registry)@;
    let (channel, user) = (named_channel(*event), named_user(*event));
    assert(channel == read_as(event.room_name()));
    assert(user == read_as(event.identity()));
    law_event_has_room(m, *event, channel, user);
    if r is Some {
        let now = choose|now: Reading|
            now.is_plausible() && #[trigger] handled(
                m,
                *event,
                channel,
                user,
                now,
                final(registry)@,
                r->0,
            );
        assert(handled(m, *event, channel, user, now, final(registry)@, r->0));
    }
}

/// Who LiveKit says joined is in the channel of the event's room, under the
/// session that the event names, and in no other channel.
pub proof fn law_join_event(
    registry: &mut VoiceRegistry,
    event: &WebhookEvent,
    r: Option<WebhookOutcome>,
    channel: Uuid,
    user: Uuid,
    c: Uuid,
)
    requires
        old(registry).wf(),
        call_ensures(webhook, (registry, event), r),
        r is Some,
        event.event@ == "participant_joined"@,
        event.room is Some && uuid_of_text(event.room->0.name@) == Some(channel),
        event.participant is Some && uuid_of_text(event.participant->0.identity@) == Some(user),
        event.participant->0.sid is Some,
        event.participant->0.permission is None,
        r->0.verdict != Verdict::Duplicate,
    ensures
        ({
            let after = final(registry)@;
            &&& r->0.verdict == Verdict::Applied
            &&& after.rooms.contains_key(c) && after.rooms[c].participants.contains_key(user) <==> c == channel
            &&& after.rooms[channel].participants[user].sid == Some(event.participant->0.sid->0@)
        }),
{
    let m = old(registry)@;
    law_event_handled(registry, event, r);
    let now = choose|now: Reading|
        now.is_plausible() && #[trigger] handled(
            m,
            *event,
            Some(channel),
            Some(user),
            now,
            final(registry)@,
            r->0,
        );
    law_event_parts(*event);
    law_event_passed_over(m, *event, Some(channel), Some(user), now, final(registry)@, r->0);
    law_event_applied(m, *event, channel, Some(user), now, final(registry)@, r->0);
    law_seen_event_known(m, event.key());
    law_exclusive_join(m.having_seen(event.key()), channel, user, event.session()->0, now, c, user);
    law_exclusive_join(m.having_seen(event.key()), channel, user, event.session()->0, now, channel, user);
}

} // verus!
