use std::collections::HashSet;

use tupi_voice::clock::{Reading, UtcTime};
use tupi_voice::ident::{Uuid, MUSIC_BOT_ID};
use tupi_voice::protocol::Payload;
use tupi_voice::voice::projection::{publish_room_change, roster_message};
use tupi_voice::voice::{
    ChangeReason, HintError, ReconciledParticipant, RoomChange, TrackSource, VoiceRegistry, VoiceRoom,
    PROVISIONAL_TTL, SEEN_EVENTS_CAP,
};

const C: Uuid = 9000;
const D: Uuid = 9001;

fn at(mono: i128) -> Reading {
    Reading { utc: UtcTime { secs: 1_700_000_000, nanos: 5 }, mono }
}

fn live(user_id: Uuid, sid: &str, tracks: Vec<(&str, TrackSource, bool)>) -> ReconciledParticipant {
    ReconciledParticipant {
        user_id,
        sid: sid.to_string(),
        tracks: tracks.into_iter().map(|(s, k, m)| (s.to_string(), k, m)).collect(),
    }
}

fn delta_lens(c: &RoomChange) -> (usize, usize, usize, usize, usize) {
    (
        c.participants_added.len(),
        c.participants_updated.len(),
        c.participants_removed.len(),
        c.tracks_added.len(),
        c.tracks_removed.len(),
    )
}

#[test]
fn versions_count_on_when_a_room_is_opened_again() {
    let mut reg = VoiceRegistry::default();
    reg.webhook_participant_joined(C, 7, "PA_1".into());
    let left = reg.webhook_participant_left(C, 7, "PA_1".into());
    assert!(left.room_closed);
    assert_eq!((left.version_before, left.version_after), (1, 2));
    assert_eq!(reg.version(C), 0, "a channel without a room has no version");
    let back = reg.webhook_participant_joined(C, 7, "PA_2".into());
    assert_eq!((back.version_before, back.version_after), (2, 3));
    assert_eq!(reg.version(C), 3);
}

#[test]
fn a_redelivered_join_changes_nothing() {
    let mut reg = VoiceRegistry::default();
    assert!(!reg.webhook_participant_joined(C, 7, "PA_1".into()).is_empty());
    let again = reg.webhook_participant_joined(C, 7, "PA_1".into());
    assert!(again.is_empty());
    assert_eq!(again.reason, ChangeReason::WebhookParticipantJoined);
    assert_eq!(delta_lens(&again), (0, 0, 0, 0, 0));
}

#[test]
fn a_new_session_replaces_the_old_one_and_keeps_the_rest() {
    let mut reg = VoiceRegistry::default();
    reg.webhook_participant_joined_at(C, 7, "PA_1".into(), at(0));
    reg.set_audio_state(C, 7, Some(true), None).unwrap();
    let change = reg.webhook_participant_joined_at(C, 7, "PA_2".into(), at(50));
    assert_eq!(delta_lens(&change), (0, 1, 0, 0, 0));
    let row = &change.participants_updated[0];
    assert_eq!(row.sid.as_deref(), Some("PA_2"));
    assert!(row.muted);
    assert_eq!(row.joined_at, at(0).utc);
}

#[test]
fn the_owner_sid_of_a_track_is_that_of_its_row() {
    let mut reg = VoiceRegistry::default();
    reg.webhook_participant_joined(C, 7, "PA_1".into());
    let change = reg.webhook_track_published(C, 7, None, "TR_1".into(), TrackSource::Camera);
    assert_eq!(delta_lens(&change), (0, 0, 0, 1, 0));
    assert_eq!(change.tracks_added[0].owner_sid.as_deref(), Some("PA_1"));
    assert!(reg.webhook_track_published(C, 7, None, "TR_1".into(), TrackSource::Camera).is_empty());
}

#[test]
fn an_early_track_with_a_session_brings_a_confirmed_owner() {
    let mut reg = VoiceRegistry::default();
    let change =
        reg.webhook_track_published_at(C, 7, Some("PA_1".into()), "TR_1".into(), TrackSource::Camera, at(3));
    assert!(!change.participants_added[0].is_provisional());
    assert_eq!(change.participants_added[0].provisional_since, None);
    assert_eq!((change.version_before, change.version_after), (0, 2));
}

#[test]
fn muting_a_track_sends_the_whole_row_again() {
    let mut reg = VoiceRegistry::default();
    reg.webhook_participant_joined(C, 7, "PA_1".into());
    reg.webhook_track_published(C, 7, None, "TR_1".into(), TrackSource::Microphone);
    let muted = reg.webhook_track_muted(C, "TR_1", true);
    assert_eq!(delta_lens(&muted), (0, 0, 0, 1, 0));
    assert!(muted.tracks_added[0].muted);
    assert!(reg.webhook_track_muted(C, "TR_1", true).is_empty());
    assert!(reg.webhook_track_muted(C, "TR_9", true).is_empty());
    assert!(reg.webhook_track_muted(D, "TR_1", true).is_empty());
}

#[test]
fn hints_and_own_state_are_refused_outside_the_call() {
    let mut reg = VoiceRegistry::default();
    assert_eq!(
        reg.hint_track(C, 7, "TR_1".into(), TrackSource::Camera, false).unwrap_err(),
        HintError::TrackNotFound
    );
    assert_eq!(reg.set_audio_state(C, 7, Some(true), None).unwrap_err(), HintError::NotInCall);
    reg.webhook_participant_joined(C, 8, "PA_8".into());
    assert_eq!(reg.set_audio_state(C, 7, Some(true), None).unwrap_err(), HintError::NotInCall);
    assert_eq!(
        reg.hint_track(C, 7, "TR_1".into(), TrackSource::Camera, true).unwrap_err(),
        HintError::NotInCall
    );
    assert_eq!(
        reg.hint_track(C, 8, "TR_1".into(), TrackSource::Camera, false).unwrap_err(),
        HintError::TrackNotFound
    );
}

#[test]
fn the_owner_takes_its_track_down_by_a_hint() {
    let mut reg = VoiceRegistry::default();
    reg.webhook_participant_joined(C, 7, "PA_1".into());
    let up = reg.hint_track(C, 7, "TR_1".into(), TrackSource::Camera, true).unwrap();
    assert_eq!(up.tracks_added[0].owner_sid.as_deref(), Some("PA_1"));
    assert!(reg.hint_track(C, 7, "TR_1".into(), TrackSource::Camera, true).unwrap().is_empty());
    let down = reg.hint_track(C, 7, "TR_1".into(), TrackSource::Camera, false).unwrap();
    assert_eq!(down.tracks_removed, vec!["TR_1"]);
    assert_eq!(down.reason, ChangeReason::WsTrackHint);
}

#[test]
fn a_hint_with_a_session_confirms() {
    let mut reg = VoiceRegistry::default();
    assert!(reg.hint_joining(C, 7, None, false).participants_added[0].is_provisional());
    assert!(reg.hint_joining(C, 7, None, false).is_empty());
    let confirmed = reg.hint_joining(C, 7, Some("PA_1".into()), false);
    assert_eq!(delta_lens(&confirmed), (0, 1, 0, 0, 0));
    assert!(!confirmed.participants_updated[0].is_provisional());
    assert_eq!(reg.human_count(C), 1);
}

#[test]
fn expiry_takes_out_the_old_and_their_tracks_only() {
    let mut reg = VoiceRegistry::default();
    reg.hint_joining_at(C, 7, None, false, at(0));
    reg.webhook_track_published_at(C, 7, None, "TR_7".into(), TrackSource::Camera, at(0));
    reg.hint_joining_at(C, 8, None, false, at(1));
    reg.webhook_participant_joined_at(C, 9, "PA_9".into(), at(0));
    assert!(reg.expire_provisionals_at(PROVISIONAL_TTL - 1).is_empty());
    let changes = reg.expire_provisionals_at(PROVISIONAL_TTL);
    assert_eq!(changes.len(), 1);
    assert_eq!(changes[0].participants_removed, vec![7]);
    assert_eq!(changes[0].tracks_removed, vec!["TR_7"]);
    assert_eq!(changes[0].reason, ChangeReason::ProvisionalExpired);
    assert!(!changes[0].room_closed);
    assert_eq!(reg.participant_ids(C), vec![8, 9]);
}

#[test]
fn an_exclusive_join_reports_the_other_rooms_in_order() {
    let mut reg = VoiceRegistry::default();
    reg.hint_joining(D, 7, None, false);
    reg.webhook_participant_joined(C, 7, "PA_1".into());
    reg.webhook_participant_joined(C, 8, "PA_8".into());
    let changes = reg.webhook_participant_joined_exclusive(9002, 7, "PA_2".into());
    let seen: Vec<(Uuid, ChangeReason, bool)> =
        changes.iter().map(|c| (c.channel_id, c.reason, c.room_closed)).collect();
    assert_eq!(
        seen,
        vec![
            (C, ChangeReason::WebhookParticipantLeft, false),
            (D, ChangeReason::WsPresenceHint, true),
            (9002, ChangeReason::WebhookParticipantJoined, false),
        ]
    );
    assert_eq!(reg.channel_of(7), Some(9002));
    assert!(reg.webhook_participant_joined_exclusive(9002, 7, "PA_2".into()).is_empty());
}

#[test]
fn reconcile_twice_is_reconcile_once() {
    let mut reg = VoiceRegistry::default();
    reg.webhook_participant_joined_at(C, 8, "PA_8".into(), at(0));
    let listed = vec![
        live(7, "PA_7", vec![("TR_b", TrackSource::Camera, true), ("TR_a", TrackSource::Microphone, false)]),
        live(9, "PA_9", vec![]),
    ];
    let first = reg.reconcile_room_at(C, &listed, at(5));
    assert_eq!(delta_lens(&first), (2, 0, 1, 2, 0));
    assert_eq!(first.reason, ChangeReason::ReconcileAdded);
    assert_eq!(first.version_after, first.version_before + 1);
    let sids: Vec<&str> = first.tracks_added.iter().map(|t| t.sid.as_str()).collect();
    assert_eq!(sids, vec!["TR_a", "TR_b"]);
    assert!(reg.reconcile_room_at(C, &listed, at(6)).is_empty());
    assert_eq!(reg.room(C).unwrap().reconciled_at, Some(6));
}

#[test]
fn reconcile_unmutes_confirms_and_drops_stale_tracks() {
    let mut reg = VoiceRegistry::default();
    reg.hint_joining_at(C, 7, None, false, at(0));
    reg.webhook_track_published_at(C, 7, None, "TR_old".into(), TrackSource::Camera, at(0));
    reg.webhook_track_published_at(C, 7, None, "TR_1".into(), TrackSource::Camera, at(0));
    let change =
        reg.reconcile_room_at(C, &vec![live(7, "PA_7", vec![("TR_1", TrackSource::Camera, true)])], at(1));
    assert_eq!(delta_lens(&change), (0, 1, 0, 1, 1));
    assert_eq!(change.tracks_removed, vec!["TR_old"]);
    assert!(change.tracks_added[0].muted);
    assert_eq!(change.tracks_added[0].owner_sid.as_deref(), Some("PA_7"));
}

#[test]
fn a_reconciled_track_names_the_session_of_its_owner() {
    let mut reg = VoiceRegistry::default();
    reg.hint_joining(C, 2, None, false);
    reg.hint_track(C, 2, "TR_1".into(), TrackSource::ScreenShare, true).unwrap();
    let listed = || vec![live(2, "PA_2", vec![("TR_1", TrackSource::ScreenShare, false)])];
    let change = reg.reconcile_room(C, listed());
    assert_eq!(delta_lens(&change), (0, 1, 0, 1, 0));
    assert_eq!(change.tracks_added[0].owner_sid.as_deref(), Some("PA_2"));
    let tracks = reg.room(C).unwrap().to_dto(C).tracks;
    assert_eq!(tracks[0].owner_sid.as_deref(), Some("PA_2"));
    assert!(reg.reconcile_room(C, listed()).is_empty());
}

#[test]
fn reconcile_takes_owner_and_source_from_livekit() {
    let mut reg = VoiceRegistry::default();
    reg.webhook_participant_joined(C, 7, "PA_7".into());
    reg.webhook_participant_joined(C, 8, "PA_8".into());
    reg.hint_track(C, 7, "TR_1".into(), TrackSource::Camera, true).unwrap();
    reg.set_music_row(C, true);
    let listed = vec![
        live(7, "PA_7", vec![]),
        live(8, "PA_8", vec![("TR_1", TrackSource::ScreenShare, false)]),
    ];
    let change = reg.reconcile_room(C, listed);
    assert_eq!(delta_lens(&change), (0, 0, 0, 1, 0));
    let tracks = reg.room(C).unwrap().to_dto(C).tracks;
    assert_eq!((tracks[0].owner, tracks[0].source.as_str()), (8, "screen_share"));
    assert_eq!(tracks[0].owner_sid.as_deref(), Some("PA_8"));
    assert_eq!((tracks[1].owner, tracks[1].source.as_str()), (MUSIC_BOT_ID, "music"));
}

#[test]
fn the_music_row_gives_every_row_back() {
    let mut reg = VoiceRegistry::default();
    reg.webhook_participant_joined(C, 7, "PA_7".into());
    reg.webhook_track_published(C, 7, None, "TR_1".into(), TrackSource::Camera);
    let v = reg.version(C);
    assert_eq!(reg.set_music_row(C, true).tracks_added.len(), 1);
    assert!(reg.set_music_row(C, true).is_empty());
    assert_eq!(reg.set_music_row(C, false).tracks_removed.len(), 1);
    assert!(reg.set_music_row(C, false).is_empty());
    assert_eq!(reg.version(C), v + 2);
    let room = reg.room(C).unwrap().to_dto(C);
    assert_eq!((room.participants.len(), room.tracks.len()), (1, 1));
    assert_eq!(room.tracks[0].track_sid, "TR_1");
}

#[test]
fn a_music_row_without_its_bot_goes_untold_with_the_room() {
    let mut reg = VoiceRegistry::default();
    reg.webhook_participant_joined(C, 7, "PA_7".into());
    reg.set_music_row(C, true);
    let closing = reg.webhook_participant_left(C, 7, "PA_7".into());
    assert!(closing.room_closed && closing.tracks_removed.is_empty());
    let reopening = reg.webhook_participant_joined(C, 7, "PA_8".into());
    assert_eq!(reopening.version_before, closing.version_after);
    assert!(reg.room(C).unwrap().to_dto(C).tracks.is_empty());
}

#[test]
fn reconcile_keeps_fresh_provisionals_and_drops_old_ones() {
    let mut reg = VoiceRegistry::default();
    reg.hint_joining_at(C, 7, None, false, at(0));
    reg.hint_joining_at(C, 8, None, false, at(PROVISIONAL_TTL));
    let change = reg.reconcile_room_at(C, &vec![], at(PROVISIONAL_TTL));
    assert_eq!(change.participants_removed, vec![7]);
    assert_eq!(reg.participant_ids(C), vec![8]);
}

#[test]
fn reconcile_of_nothing_opens_a_room_that_pruning_closes() {
    let mut reg = VoiceRegistry::default();
    assert!(reg.reconcile_room(C, vec![]).is_empty());
    assert_eq!(reg.all_channel_ids(), vec![C]);
    assert!(reg.active_channel_ids().is_empty());
    let closed = reg.reconcile_prune(&HashSet::new());
    assert_eq!(closed.len(), 1);
    assert!(closed[0].room_closed);
    assert_eq!(closed[0].reason, ChangeReason::ReconcileRemoved);
    assert!(reg.all_channel_ids().is_empty());
}

#[test]
fn pruning_spares_the_channels_that_livekit_reports() {
    let mut reg = VoiceRegistry::default();
    reg.webhook_participant_joined(C, 7, "PA_1".into());
    reg.webhook_participant_joined(D, 8, "PA_8".into());
    let live: HashSet<Uuid> = HashSet::from([D]);
    let closed = reg.reconcile_prune(&live);
    assert_eq!(closed.len(), 1);
    assert_eq!(closed[0].channel_id, C);
    assert_eq!(closed[0].participants_removed, vec![7]);
    assert_eq!(reg.all_channel_ids(), vec![D]);
}

#[test]
fn someone_listed_twice_is_confirmed_anew_each_time() {
    let mut reg = VoiceRegistry::default();
    let listed = vec![live(7, "PA_a", vec![]), live(7, "PA_b", vec![])];
    let first = reg.reconcile_room_at(C, &listed, at(0));
    assert_eq!(delta_lens(&first), (1, 1, 0, 0, 0));
    assert_eq!(delta_lens(&reg.reconcile_room_at(C, &listed, at(0))), (0, 2, 0, 0, 0));
    assert_eq!(reg.room(C).unwrap().participants[&7].sid.as_deref(), Some("PA_b"));
}

#[test]
fn the_music_row_comes_and_goes_under_its_own_sid() {
    let mut reg = VoiceRegistry::default();
    reg.webhook_participant_joined(C, MUSIC_BOT_ID, "PA_bot".into());
    let on = reg.set_music_row(C, true);
    assert_eq!(on.tracks_added[0].sid, "music:00000000-0000-0000-0000-000000002328");
    assert_eq!(on.tracks_added[0].owner, MUSIC_BOT_ID);
    assert_eq!(on.tracks_added[0].source, TrackSource::Music);
    assert!(reg.set_music_row(C, true).is_empty());
    assert_eq!(reg.set_music_row(C, false).tracks_removed, vec![on.tracks_added[0].sid.clone()]);
    assert!(reg.set_music_row(C, false).is_empty());
}

#[test]
fn the_music_row_leaves_with_the_bot() {
    let mut reg = VoiceRegistry::default();
    reg.webhook_participant_joined(C, 7, "PA_7".into());
    reg.webhook_participant_joined(C, MUSIC_BOT_ID, "PA_bot".into());
    reg.set_music_row(C, true);
    let change = reg.webhook_participant_left(C, MUSIC_BOT_ID, "PA_bot".into());
    assert_eq!(change.tracks_removed.len(), 1);
    assert!(reg.room(C).unwrap().tracks.is_empty());
}

#[test]
fn an_event_is_remembered_for_as_long_as_the_ring_is() {
    let mut reg = VoiceRegistry::default();
    assert!(!reg.is_duplicate_event("first"));
    for i in 0..SEEN_EVENTS_CAP - 1 {
        assert!(!reg.is_duplicate_event(&format!("e{i}")));
    }
    assert!(reg.is_duplicate_event("first"));
    assert!(!reg.is_duplicate_event("one more"));
    assert!(!reg.is_duplicate_event("first"), "forgotten");
}

#[test]
fn an_empty_change_is_not_published() {
    let mut reg = VoiceRegistry::default();
    let joined = reg.webhook_participant_joined(C, 7, "PA_1".into());
    let again = reg.webhook_participant_joined(C, 7, "PA_1".into());
    assert!(publish_room_change(&again).is_none());
    let m = publish_room_change(&joined).unwrap();
    assert_eq!((m.v, m.op.as_str()), (1, "voice.room.delta"));
    match m.data {
        Payload::VoiceRoomDelta(d) => {
            assert_eq!((d.channel_id, d.previous_version, d.version), (C, 0, 1));
            assert_eq!(d.reason, "webhook.participant_joined");
            assert_eq!(d.participants_added[0].user_id, 7);
            assert_eq!(d.participants_added[0].participant_sid.as_deref(), Some("PA_1"));
            assert!(!d.participants_added[0].provisional);
        }
        _ => panic!("not a delta"),
    }
}

#[test]
fn rosters_go_to_the_first_dialect() {
    let m = roster_message(C, vec![], vec![]);
    assert_eq!(m.op, "voice.roster");
    assert!(matches!(m.data, Payload::VoiceRoster(r) if r.channel_id == C));
}

#[test]
fn rooms_are_shown_in_the_order_of_the_channels() {
    let mut reg = VoiceRegistry::default();
    reg.webhook_participant_joined(D, 8, "PA_8".into());
    reg.webhook_participant_joined(C, 7, "PA_7".into());
    let shown = reg.room_dtos(&[D, 1, C, D]);
    let ids: Vec<Uuid> = shown.iter().map(|r| r.channel_id).collect();
    assert_eq!(ids, vec![C, D, D]);
    assert_eq!(shown[0].participants[0].user_id, 7);
    assert_eq!(shown[0].version, 1);
}

#[test]
fn deltas_lead_a_client_along() {
    let mut reg = VoiceRegistry::default();
    let mut known: Vec<Uuid> = Vec::new();
    let mut version = 0;
    let changes = vec![
        reg.webhook_participant_joined(C, 7, "PA_7".into()),
        reg.webhook_participant_joined(C, 8, "PA_8".into()),
        reg.webhook_participant_left(C, 7, "PA_7".into()),
        reg.reconcile_room(C, vec![live(9, "PA_9", vec![])]),
    ];
    for c in &changes {
        assert_eq!(c.version_before, version);
        known.retain(|u| !c.participants_removed.contains(u));
        known.extend(c.participants_added.iter().map(|p| p.user_id));
        version = c.version_after;
    }
    known.sort();
    assert_eq!(known, reg.participant_ids(C));
    assert_eq!(version, reg.version(C));
}

#[test]
fn a_new_room_is_empty() {
    let room = VoiceRoom::default();
    assert_eq!(room.version, 0);
    assert!(room.participants.is_empty());
    assert_eq!(room.tracks.len(), 0);
    assert_eq!(room.reconciled_at, None);
}

#[test]
fn there_is_room_to_count() {
    let reg = VoiceRegistry::default();
    assert!(reg.can_count(C));
    assert!(reg.can_move(C, 7));
    assert!(reg.can_publish(C, 7));
}

#[test]
fn a_publication_that_brings_its_owner_counts_two() {
    let mut reg = VoiceRegistry::default();
    let change = reg.webhook_track_published(C, 7, None, "TR_1".into(), TrackSource::Camera);
    assert_eq!((change.version_before, change.version_after), (0, 2));
    let change = reg.webhook_track_published(C, 7, None, "TR_2".into(), TrackSource::ScreenShare);
    assert_eq!((change.version_before, change.version_after), (2, 3));
    assert_eq!(reg.version(C), 3);
}

#[test]
fn the_bot_is_marked_however_it_comes() {
    let mut reg = VoiceRegistry::default();
    reg.webhook_participant_joined(C, MUSIC_BOT_ID, "PA_b".into());
    reg.webhook_track_published(C, 7, None, "TR_7".into(), TrackSource::Camera);
    reg.hint_joining(D, MUSIC_BOT_ID, None, false);
    reg.reconcile_room(C, vec![live(MUSIC_BOT_ID, "PA_c", vec![]), live(8, "PA_8", vec![])]);
    for channel in [C, D] {
        let room = reg.room(channel).unwrap().to_dto(channel);
        assert!(room.participants.iter().all(|p| p.is_bot == (p.user_id == MUSIC_BOT_ID)));
    }
    assert_eq!(reg.participant_ids(C), vec![MUSIC_BOT_ID, 7, 8]);
}

#[test]
fn a_track_that_brings_its_owner_counts_two() {
    let mut reg = VoiceRegistry::default();
    let c = reg.webhook_track_published(C, 7, None, "TR_1".into(), TrackSource::Camera);
    assert_eq!((c.version_before, c.version_after), (0, 2));
    let c = reg.webhook_track_published(C, 7, None, "TR_2".into(), TrackSource::ScreenShare);
    assert_eq!((c.version_before, c.version_after), (2, 3));
}
