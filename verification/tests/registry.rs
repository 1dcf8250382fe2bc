use tupi_voice::clock::Reading;
use tupi_voice::ident::{Uuid, MUSIC_BOT_ID};
use tupi_voice::voice::{
    ChangeReason, ChannelId, HintError, ReconciledParticipant, TrackSource, VoiceRegistry,
    MAX_HUMAN_PARTICIPANTS, PROVISIONAL_TTL, SEEN_EVENTS_CAP,
};

fn uid(n: u128) -> Uuid {
    n
}
fn chan() -> ChannelId {
    9000
}

/// A moment at which a row was provisional for longer than it may be, seen
/// from the registry's clock.
fn long_ago(reg: &VoiceRegistry) -> Reading {
    let now = reg.read_clock();
    Reading { utc: now.utc, mono: now.mono - (PROVISIONAL_TTL + 1_000_000_000) }
}

#[test]
fn change_reason_serializes_to_protocol_values() {
    let expected = [
        (ChangeReason::WebhookParticipantJoined, "webhook.participant_joined"),
        (ChangeReason::WebhookParticipantLeft, "webhook.participant_left"),
        (ChangeReason::WebhookTrackPublished, "webhook.track_published"),
        (ChangeReason::WebhookTrackUnpublished, "webhook.track_unpublished"),
        (ChangeReason::WebhookTrackMuted, "webhook.track_muted"),
        (ChangeReason::ReconcileAdded, "reconcile.added"),
        (ChangeReason::ReconcileRemoved, "reconcile.removed"),
        (ChangeReason::ReconcileTrackSync, "reconcile.track_sync"),
        (ChangeReason::WsPresenceHint, "ws.presence_hint"),
        (ChangeReason::WsStateUpdate, "ws.state_update"),
        (ChangeReason::WsTrackHint, "ws.track_hint"),
        (ChangeReason::AdminDisconnectMember, "admin.disconnect_member"),
        (ChangeReason::ChannelDeleted, "channel.deleted"),
        (ChangeReason::ProvisionalExpired, "provisional.expired"),
    ];
    for (reason, wire) in expected {
        assert_eq!(reason.as_wire(), wire);
    }
}


#[test]
fn webhook_join_then_stale_left_keeps_participant() {
    let mut reg = VoiceRegistry::default();
    reg.webhook_participant_joined(chan(), uid(1), "PA_new".into());
    let change = reg.webhook_participant_left(chan(), uid(1), "PA_old".into());
    assert!(change.is_empty(), "a left with a stale sid must be ignored");
    assert!(reg.is_participant(chan(), uid(1)));
}

#[test]
fn authoritative_join_evicts_same_user_from_the_previous_channel() {
    let mut reg = VoiceRegistry::default();
    let source = chan();
    let destination: Uuid = 9001;
    reg.webhook_participant_joined(source, uid(1), "PA_source".into());
    reg.webhook_track_published(source, uid(1), Some("PA_source".into()), "TR_source".into(), TrackSource::ScreenShare);

    let changes = reg.webhook_participant_joined_exclusive(destination, uid(1), "PA_destination".into());

    assert_eq!(changes.len(), 2, "the old room and the destination both publish a delta");
    assert!(!reg.is_participant(source, uid(1)));
    assert!(reg.is_participant(destination, uid(1)));
    assert!(reg.room(source).is_none(), "the stale track leaves with the old participant");
}


#[test]
fn webhook_left_with_current_sid_removes_participant_and_tracks() {
    let mut reg = VoiceRegistry::default();
    reg.webhook_participant_joined(chan(), uid(1), "PA_1".into());
    reg.webhook_track_published(chan(), uid(1), Some("PA_1".into()), "TR_1".into(), TrackSource::ScreenShare);
    let change = reg.webhook_participant_left(chan(), uid(1), "PA_1".into());
    assert_eq!(change.participants_removed, vec![uid(1)]);
    assert_eq!(change.tracks_removed, vec!["TR_1".to_string()]);
    assert!(change.room_closed, "the last participant left");
    assert!(reg.room(chan()).is_none());
}


#[test]
fn republish_track_uses_new_sid_and_old_is_removed() {
    let mut reg = VoiceRegistry::default();
    reg.webhook_participant_joined(chan(), uid(1), "PA_1".into());
    let v0 = reg.version(chan());
    reg.webhook_track_published(chan(), uid(1), Some("PA_1".into()), "TR_1".into(), TrackSource::ScreenShare);
    reg.webhook_track_unpublished(chan(), "TR_1");
    reg.webhook_track_published(chan(), uid(1), Some("PA_1".into()), "TR_2".into(), TrackSource::ScreenShare);
    let room = reg.room(chan()).unwrap();
    assert_eq!(room.tracks.keys(), vec!["TR_2"]);
    assert_eq!(room.version, v0 + 3, "3 accepted mutations");
}

#[test]
fn out_of_order_republish_keeps_only_the_new_track() {
    let mut reg = VoiceRegistry::default();
    reg.webhook_participant_joined(chan(), uid(1), "PA_1".into());
    reg.webhook_track_published(chan(), uid(1), Some("PA_1".into()), "TR_1".into(), TrackSource::ScreenShare);
    // New track published before the old one is torn down.
    reg.webhook_track_published(chan(), uid(1), Some("PA_1".into()), "TR_2".into(), TrackSource::ScreenShare);
    reg.webhook_track_unpublished(chan(), "TR_1");
    let room = reg.room(chan()).unwrap();
    assert_eq!(room.tracks.keys(), vec!["TR_2"]);
}


#[test]
fn track_unpublished_for_unknown_sid_is_noop() {
    let mut reg = VoiceRegistry::default();
    reg.webhook_participant_joined(chan(), uid(1), "PA_1".into());
    let v = reg.version(chan());
    let change = reg.webhook_track_unpublished(chan(), "TR_ghost");
    assert!(change.is_empty());
    assert_eq!(reg.version(chan()), v);
}


#[test]
fn track_published_before_join_creates_provisional_owner() {
    let mut reg = VoiceRegistry::default();
    let change = reg.webhook_track_published(
        chan(),
        uid(1),
        None,
        "TR_1".into(),
        TrackSource::ScreenShare,
    );
    assert_eq!(change.participants_added.len(), 1);
    assert!(change.participants_added[0].is_provisional());
    assert_eq!(change.tracks_added.len(), 1);
    assert_eq!(change.version_after - change.version_before, 2);
}


#[test]
fn provisional_expires_after_ten_seconds() {
    let mut reg = VoiceRegistry::default();
    let past = long_ago(&reg);
    reg.hint_joining_at(chan(), uid(1), None, false, past);
    let changes = reg.expire_provisionals();
    assert_eq!(changes.len(), 1);
    assert_eq!(changes[0].participants_removed, vec![uid(1)]);
    assert!(reg.room(chan()).is_none(), "room emptied and closed");
}

#[test]
fn fresh_provisional_is_not_expired() {
    let mut reg = VoiceRegistry::default();
    reg.hint_joining(chan(), uid(1), None, false);
    assert!(reg.expire_provisionals().is_empty());
    assert!(reg.is_participant(chan(), uid(1)));
}


#[test]
fn provisional_is_confirmed_by_webhook_without_duplicating() {
    let mut reg = VoiceRegistry::default();
    reg.hint_joining(chan(), uid(1), None, false);
    let change = reg.webhook_participant_joined(chan(), uid(1), "PA_1".into());
    assert_eq!(change.participants_updated.len(), 1);
    assert!(change.participants_added.is_empty());
    let room = reg.room(chan()).unwrap();
    assert_eq!(room.participants.len(), 1);
    assert!(!room.participants[&uid(1)].is_provisional());
}


#[test]
fn leaving_hint_does_not_remove_confirmed_participant() {
    let mut reg = VoiceRegistry::default();
    reg.webhook_participant_joined(chan(), uid(1), "PA_1".into());
    let (change, needs_reconcile) = reg.hint_leaving(chan(), uid(1));
    assert!(change.is_empty());
    assert!(needs_reconcile);
    assert!(reg.is_participant(chan(), uid(1)));
}


#[test]
fn leaving_hint_removes_provisional_participant() {
    let mut reg = VoiceRegistry::default();
    reg.hint_joining(chan(), uid(1), None, false);
    let v = reg.version(chan());
    let (change, needs_reconcile) = reg.hint_leaving(chan(), uid(1));
    assert!(!needs_reconcile);
    assert_eq!(change.participants_removed, vec![uid(1)]);
    assert!(change.version_after > v);
}

#[test]
fn joining_hint_never_overrides_a_confirmed_participant() {
    let mut reg = VoiceRegistry::default();
    reg.webhook_participant_joined(chan(), uid(1), "PA_real".into());
    let v = reg.version(chan());
    let change = reg.hint_joining(chan(), uid(1), Some("PA_spoofed".into()), false);
    assert!(change.is_empty());
    assert_eq!(
        reg.room(chan()).unwrap().participants[&uid(1)].sid.as_deref(),
        Some("PA_real")
    );
    assert_eq!(reg.version(chan()), v);
}


#[test]
fn reconcile_preserves_mute_deafen_and_music_row() {
    let mut reg = VoiceRegistry::default();
    reg.webhook_participant_joined(chan(), uid(1), "PA_1".into());
    reg.set_audio_state(chan(), uid(1), Some(true), Some(true)).unwrap();
    reg.set_music_row(chan(), true);

    reg.reconcile_room(
        chan(),
        vec![ReconciledParticipant { user_id: uid(1), sid: "PA_1".into(), tracks: vec![] }],
    );

    let room = reg.room(chan()).unwrap();
    assert!(room.participants[&uid(1)].muted);
    assert!(room.participants[&uid(1)].deafened);
    assert!(room.tracks.values().iter().any(|t| t.source == TrackSource::Music));
}


#[test]
fn reconcile_removes_participants_livekit_no_longer_lists() {
    let mut reg = VoiceRegistry::default();
    reg.webhook_participant_joined(chan(), uid(1), "PA_1".into());
    reg.webhook_participant_joined(chan(), uid(2), "PA_2".into());
    let change = reg.reconcile_room(
        chan(),
        vec![ReconciledParticipant { user_id: uid(1), sid: "PA_1".into(), tracks: vec![] }],
    );
    assert_eq!(change.participants_removed, vec![uid(2)]);
    assert!(!reg.is_participant(chan(), uid(2)));
}


#[test]
fn reconcile_is_noop_when_in_sync_and_does_not_bump_version() {
    let mut reg = VoiceRegistry::default();
    reg.webhook_participant_joined(chan(), uid(1), "PA_1".into());
    let v = reg.version(chan());
    let change = reg.reconcile_room(
        chan(),
        vec![ReconciledParticipant { user_id: uid(1), sid: "PA_1".into(), tracks: vec![] }],
    );
    assert!(change.is_empty());
    assert_eq!(reg.version(chan()), v);
    assert!(reg.room(chan()).unwrap().reconciled_at.is_some());
}


#[test]
fn version_increases_by_one_per_accepted_mutation() {
    let mut reg = VoiceRegistry::default();
    assert_eq!(reg.version(chan()), 0);
    reg.webhook_participant_joined(chan(), uid(1), "PA_1".into());
    assert_eq!(reg.version(chan()), 1);
    reg.webhook_participant_joined(chan(), uid(2), "PA_2".into());
    assert_eq!(reg.version(chan()), 2);
    reg.set_audio_state(chan(), uid(1), Some(true), None).unwrap();
    assert_eq!(reg.version(chan()), 3);
    // A no-op does not bump.
    reg.set_audio_state(chan(), uid(1), Some(true), None).unwrap();
    assert_eq!(reg.version(chan()), 3);
}


#[test]
fn duplicate_webhook_event_id_is_ignored() {
    let mut reg = VoiceRegistry::default();
    assert!(!reg.is_duplicate_event("evt-1"));
    assert!(reg.is_duplicate_event("evt-1"));
    assert!(!reg.is_duplicate_event("evt-2"));
}

#[test]
fn webhook_dedupe_ring_is_bounded() {
    let mut reg = VoiceRegistry::default();
    for i in 0..(SEEN_EVENTS_CAP + 50) {
        assert!(!reg.is_duplicate_event(&format!("evt-{i}")));
    }
    // The oldest entries have been evicted and are accepted again.
    assert!(!reg.is_duplicate_event("evt-0"));
    // A recent one is still remembered.
    assert!(reg.is_duplicate_event(&format!("evt-{}", SEEN_EVENTS_CAP + 40)));
}


#[test]
fn music_row_survives_track_reconcile() {
    let mut reg = VoiceRegistry::default();
    reg.webhook_participant_joined(chan(), uid(1), "PA_1".into());
    reg.set_music_row(chan(), true);
    reg.reconcile_room(
        chan(),
        vec![ReconciledParticipant {
            user_id: uid(1),
            sid: "PA_1".into(),
            tracks: vec![("TR_cam".into(), TrackSource::Camera, false)],
        }],
    );
    let room = reg.room(chan()).unwrap();
    assert!(room.tracks.values().iter().any(|t| t.source == TrackSource::Music));
    assert!(room.tracks.contains_key("TR_cam"));
}


#[test]
fn channel_full_is_computed_from_confirmed_non_bot_participants() {
    let mut reg = VoiceRegistry::default();
    for i in 0..MAX_HUMAN_PARTICIPANTS as u128 {
        reg.webhook_participant_joined(chan(), uid(100 + i), format!("PA_{i}"));
    }
    assert!(reg.is_full(chan()));
    assert_eq!(reg.human_count(chan()), MAX_HUMAN_PARTICIPANTS);

    // A provisional and the bot do not count toward the cap.
    let mut reg2 = VoiceRegistry::default();
    reg2.webhook_participant_joined(chan(), MUSIC_BOT_ID, "PA_bot".into());
    reg2.hint_joining(chan(), uid(1), None, false);
    assert_eq!(reg2.human_count(chan()), 0);
    assert!(!reg2.is_full(chan()));
}


#[test]
fn hint_track_unpublish_by_non_owner_is_rejected() {
    let mut reg = VoiceRegistry::default();
    reg.webhook_participant_joined(chan(), uid(1), "PA_1".into());
    reg.webhook_participant_joined(chan(), uid(2), "PA_2".into());
    reg.hint_track(chan(), uid(1), "TR_1".into(), TrackSource::ScreenShare, true).unwrap();
    let v = reg.version(chan());

    let err = reg
        .hint_track(chan(), uid(2), "TR_1".into(), TrackSource::ScreenShare, false)
        .unwrap_err();
    assert_eq!(err, HintError::NotTrackOwner);
    assert!(reg.room(chan()).unwrap().tracks.contains_key("TR_1"));
    assert_eq!(reg.version(chan()), v);
}

#[test]
fn hint_track_publish_without_membership_is_rejected() {
    let mut reg = VoiceRegistry::default();
    let err = reg
        .hint_track(chan(), uid(1), "TR_1".into(), TrackSource::ScreenShare, true)
        .unwrap_err();
    assert_eq!(err, HintError::NotInCall);
}


#[test]
fn snapshot_serialization_is_deterministic_regardless_of_insertion_order() {
    let build = |order: [u128; 3]| {
        let mut reg = VoiceRegistry::default();
        for n in order {
            reg.webhook_participant_joined(chan(), uid(n), format!("PA_{n}"));
            reg.webhook_track_published(
                chan(),
                uid(n),
                Some(format!("PA_{n}")),
                format!("TR_{n}"),
                TrackSource::ScreenShare,
            );
        }
        reg.room(chan()).unwrap().to_dto(chan())
    };

    let a = build([3, 1, 2]);
    let b = build([1, 2, 3]);

    assert_eq!(
        a.participants.iter().map(|p| p.user_id).collect::<Vec<_>>(),
        vec![uid(1), uid(2), uid(3)],
        "participants must be sorted by user_id"
    );
    assert_eq!(
        a.participants.iter().map(|p| p.user_id).collect::<Vec<_>>(),
        b.participants.iter().map(|p| p.user_id).collect::<Vec<_>>(),
    );
    assert_eq!(
        a.tracks.iter().map(|t| t.track_sid.clone()).collect::<Vec<_>>(),
        b.tracks.iter().map(|t| t.track_sid.clone()).collect::<Vec<_>>(),
    );
    assert!(a.tracks.windows(2).all(|w| w[0].track_sid <= w[1].track_sid));
}


#[test]
fn maintenance_ops_on_missing_room_are_empty_and_create_nothing() {
    let mut reg = VoiceRegistry::default();
    assert!(reg.close_channel(chan()).is_empty());
    assert!(reg.set_music_row(chan(), false).is_empty());
    assert!(reg.room(chan()).is_none());
}

#[test]
fn close_channel_reports_everyone_removed_and_closes_room() {
    let mut reg = VoiceRegistry::default();
    reg.webhook_participant_joined(chan(), uid(1), "PA_1".into());
    reg.webhook_participant_joined(chan(), uid(2), "PA_2".into());
    let change = reg.close_channel(chan());
    assert!(change.room_closed);
    assert_eq!(change.participants_removed, vec![uid(1), uid(2)]);
    assert!(reg.room(chan()).is_none());
}
