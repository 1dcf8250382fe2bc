use tupi_voice::clock::{Reading, UtcTime};
use tupi_voice::ident::{uuid_to_string, Uuid, MUSIC_BOT_ID};
use tupi_voice::livekit::snapshot::{
    can_reconcile, map_to_reconciled, recognize, recognize_rooms, reconcile_one_room, reconcile_rooms_at,
    reconcile_voice_rooms, LiveRoom, RoomParticipant,
};
use tupi_voice::livekit::token::{
    bearer, bot_identity, token, token_response, AppError, Identity, Mode, TokenRefusal, TokenRequest,
};
use tupi_voice::livekit::webhook::{
    handle, webhook, Participant, ParticipantPermission, Room, Track, Verdict, WebhookEvent,
};
use tupi_voice::protocol::Channel;
use tupi_voice::voice::{ChangeReason, ReconciledParticipant, TrackSource, VoiceRegistry, MAX_HUMAN_PARTICIPANTS};

const C: Uuid = 9000;
const D: Uuid = 9001;
const NOW: i64 = 1_700_000_000;

fn now() -> Reading {
    Reading { utc: UtcTime { secs: NOW, nanos: 0 }, mono: 0 }
}

fn listed(identity: &str, sid: &str, tracks: Vec<(&str, &str, bool)>) -> RoomParticipant {
    RoomParticipant {
        identity: identity.into(),
        sid: sid.into(),
        tracks: tracks.into_iter().map(|(a, b, m)| (a.to_string(), b.to_string(), m)).collect(),
    }
}

#[test]
fn strangers_and_unknown_sources_are_dropped() {
    let id = uuid_to_string(7);
    let tracks = vec![("TR_1", "CAMERA", true), ("TR_2", "unknown", false), ("TR_3", "screen_share_audio", false)];
    let mapped = map_to_reconciled(&vec![
        listed("recorder", "PA_x", vec![]),
        listed(&id, "PA_7", tracks),
    ]);
    assert_eq!(mapped.len(), 1);
    assert_eq!((mapped[0].user_id, mapped[0].sid.as_str()), (7, "PA_7"));
    assert_eq!(
        mapped[0].tracks,
        vec![
            ("TR_1".to_string(), TrackSource::Camera, true),
            ("TR_3".to_string(), TrackSource::ScreenShareAudio, false)
        ]
    );
    assert!(recognize(None, &listed(&id, "PA_7", vec![])).is_none());
    assert_eq!(recognize(Some(8), &listed(&id, "PA_7", vec![])).unwrap().user_id, 8);
}

#[test]
fn the_registry_is_held_to_what_livekit_lists() {
    let mut reg = VoiceRegistry::default();
    reg.webhook_participant_joined(D, 8, "PA_8".into());
    reg.webhook_participant_joined(9002, 9, "PA_9".into());
    let snapshot = vec![
        ("lobby".to_string(), vec![]),
        (uuid_to_string(D), vec![listed(&uuid_to_string(8), "PA_8", vec![])]),
        (uuid_to_string(C), vec![listed(&uuid_to_string(7), "PA_7", vec![])]),
    ];
    assert_eq!(recognize_rooms(&snapshot).iter().map(|r| r.channel_id).collect::<Vec<Uuid>>(), vec![D, C]);
    let changes = reconcile_voice_rooms(&mut reg, &snapshot).unwrap();
    let seen: Vec<(Uuid, ChangeReason)> = changes.iter().map(|c| (c.channel_id, c.reason)).collect();
    assert_eq!(seen, vec![(C, ChangeReason::ReconcileAdded), (9002, ChangeReason::ReconcileRemoved)]);
    assert_eq!(reg.all_channel_ids(), vec![C, D]);
    assert!(reconcile_voice_rooms(&mut reg, &snapshot).unwrap().is_empty());
}

#[test]
fn a_channel_that_is_listed_twice_counts_twice() {
    let mut reg = VoiceRegistry::default();
    let snapshot = vec![
        (uuid_to_string(C), vec![listed(&uuid_to_string(7), "PA_7", vec![])]),
        (uuid_to_string(C), vec![listed(&uuid_to_string(8), "PA_8", vec![])]),
    ];
    assert!(can_reconcile(&reg, &recognize_rooms(&snapshot)));
    let changes = reconcile_voice_rooms(&mut reg, &snapshot).unwrap();
    let versions: Vec<(Uuid, u64)> = changes.iter().map(|c| (c.channel_id, c.version_after)).collect();
    assert_eq!(versions, vec![(C, 1), (C, 2)]);
    assert_eq!(reg.participant_ids(C), vec![8]);
}

#[test]
fn one_room_is_held_to_what_livekit_lists() {
    let mut reg = VoiceRegistry::default();
    let change = reconcile_one_room(&mut reg, C, &vec![listed(&uuid_to_string(7), "PA_7", vec![])]);
    assert_eq!(change.participants_added[0].user_id, 7);
    let rooms = vec![LiveRoom {
        channel_id: C,
        participants: vec![ReconciledParticipant { user_id: 7, sid: "PA_7".into(), tracks: vec![] }],
    }];
    assert!(reconcile_rooms_at(&mut reg, &rooms, now()).is_empty());
    assert_eq!(reg.room(C).unwrap().reconciled_at, Some(0));
}

fn event(kind: &str, id: Option<&str>) -> WebhookEvent {
    WebhookEvent {
        event: kind.into(),
        id: id.map(str::to_string),
        created_at: Some(NOW),
        room: Some(Room { name: uuid_to_string(C) }),
        participant: Some(Participant {
            identity: uuid_to_string(7),
            sid: Some("PA_7".into()),
            state: None,
            permission: None,
        }),
        track: Some(Track { source: "SCREEN_SHARE".into(), sid: Some("TR_1".into()), muted: false }),
    }
}

#[test]
fn an_event_is_known_by_its_id_or_by_what_it_is_about() {
    assert_eq!(event("track_muted", Some("EV_1")).dedupe_key(), "track_muted:EV_1");
    let e = event("track_muted", None);
    assert_eq!(e.dedupe_key(), format!("track_muted:{}:PA_7:TR_1:{NOW}", uuid_to_string(C)));
    let bare = WebhookEvent {
        event: "room_started".into(),
        id: None,
        created_at: None,
        room: None,
        participant: None,
        track: None,
    };
    assert_eq!(bare.dedupe_key(), "room_started:-:-:-:0");
    let old = WebhookEvent { created_at: Some(-5), ..bare };
    assert_eq!(old.dedupe_key(), "room_started:-:-:-:-5");
}

#[test]
fn an_event_is_late_after_a_minute() {
    let e = event("track_muted", None);
    assert!(!e.is_late(NOW + 60));
    assert!(e.is_late(NOW + 61));
    assert!(WebhookEvent { created_at: Some(i64::MIN), ..event("x", None) }.is_late(i64::MAX));
    assert!(!WebhookEvent { created_at: None, ..event("x", None) }.is_late(i64::MAX));
}

#[test]
fn events_are_applied_to_the_registry() {
    let mut reg = VoiceRegistry::default();
    let mut run = |kind: &str| {
        let o = handle(&mut reg, &event(kind, None), Some(C), Some(7), now());
        assert!(o.reconcile.is_empty() || kind == "room_finished");
        (o.verdict, o.changes.iter().filter(|c| !c.is_empty()).map(|c| c.reason).collect::<Vec<ChangeReason>>())
    };
    let applied = |r: ChangeReason| (Verdict::Applied, vec![r]);
    assert_eq!(run("participant_joined"), applied(ChangeReason::WebhookParticipantJoined));
    assert_eq!(run("track_published"), applied(ChangeReason::WebhookTrackPublished));
    assert_eq!(run("track_muted"), applied(ChangeReason::WebhookTrackMuted));
    assert_eq!(run("track_unmuted"), applied(ChangeReason::WebhookTrackMuted));
    assert_eq!(run("track_unpublished"), applied(ChangeReason::WebhookTrackUnpublished));
    assert_eq!(run("room_started"), (Verdict::Unhandled, vec![]));
    assert_eq!(run("room_finished"), (Verdict::RoomFinished, vec![]));
    assert_eq!(run("participant_left"), applied(ChangeReason::WebhookParticipantLeft));
    assert_eq!(run("participant_left"), (Verdict::Duplicate, vec![]));
}

#[test]
fn the_end_of_a_room_confirms_its_channel() {
    let mut reg = VoiceRegistry::default();
    reg.webhook_participant_joined(C, 7, "PA_7".into());
    let late = WebhookEvent { created_at: Some(NOW - 61), ..event("room_finished", None) };
    let o = handle(&mut reg, &late, Some(C), Some(7), now());
    assert_eq!(o.reconcile, vec![(C, 500), (C, 1_000)]);
    assert!(o.changes.is_empty());
    assert!(reg.is_participant(C, 7));
}

#[test]
fn what_cannot_be_applied_is_told_apart() {
    let mut reg = VoiceRegistry::default();
    let o = handle(&mut reg, &event("participant_joined", Some("1")), None, Some(7), now());
    assert_eq!(o.verdict, Verdict::UnparsableRoom);
    let o = handle(&mut reg, &event("participant_joined", Some("2")), Some(C), None, now());
    assert_eq!(o.verdict, Verdict::MissingSid);
    let mut no_session = event("participant_left", Some("3"));
    no_session.participant.as_mut().unwrap().sid = None;
    assert_eq!(handle(&mut reg, &no_session, Some(C), Some(7), now()).verdict, Verdict::MissingSid);
    let mut no_source = event("track_published", Some("4"));
    no_source.track.as_mut().unwrap().source = "unknown".into();
    assert_eq!(handle(&mut reg, &no_source, Some(C), Some(7), now()).verdict, Verdict::Untrackable);
    let no_track = WebhookEvent { track: None, ..event("track_muted", Some("5")) };
    assert_eq!(handle(&mut reg, &no_track, Some(C), Some(7), now()).verdict, Verdict::Untrackable);
    let mut hidden = event("participant_joined", Some("6"));
    hidden.participant.as_mut().unwrap().permission =
        Some(ParticipantPermission { hidden: true, can_publish: false });
    let late = WebhookEvent { created_at: Some(0), ..hidden };
    let o = handle(&mut reg, &late, Some(C), Some(7), now());
    assert_eq!(o.verdict, Verdict::HiddenParticipant);
    assert!(o.reconcile.is_empty());
    assert!(reg.room(C).is_none());
}

#[test]
fn a_webhook_reads_its_room_and_identity() {
    let mut reg = VoiceRegistry::default();
    let o = webhook(&mut reg, &event("participant_joined", Some("1"))).unwrap();
    assert_eq!(o.verdict, Verdict::Applied);
    assert!(reg.is_participant(C, 7));
    assert_eq!(webhook(&mut reg, &event("participant_joined", Some("1"))).unwrap().verdict, Verdict::Duplicate);
    let lobby = WebhookEvent { room: Some(Room { name: "lobby".into() }), ..event("participant_joined", Some("2")) };
    assert_eq!(webhook(&mut reg, &lobby).unwrap().verdict, Verdict::UnparsableRoom);
}

fn channel(kind: &str) -> Channel {
    Channel {
        id: C,
        community_id: 40,
        category_id: None,
        name: "c".into(),
        kind: kind.into(),
        topic: None,
        position: 0,
    }
}

fn who(id: Uuid, is_bot: bool) -> Identity {
    Identity { id, name: "n".into(), is_bot }
}

#[test]
fn the_token_stands_behind_bearer() {
    assert_eq!(bearer("Bearer abc").as_deref(), Some("abc"));
    assert_eq!(bearer("Bearer ").as_deref(), Some(""));
    assert_eq!(bearer("bearer abc"), None);
    assert_eq!(bearer("Bearer"), None);
    let bot = bot_identity("b", "b").unwrap();
    assert_eq!((bot.id, bot.name.as_str(), bot.is_bot), (MUSIC_BOT_ID, "Music bot", true));
    assert!(bot_identity("a", "b").is_none());
}

#[test]
fn tokens_are_refused_in_turn() {
    let reg = VoiceRegistry::default();
    let request = TokenRequest { channel_id: C, mode: Mode::Participant };
    let voice = channel("voice");
    let url = || Some("wss://lk".to_string());
    assert_eq!(token(&reg, &who(7, false), &request, None, true, url()), Err(TokenRefusal::NotFound));
    assert_eq!(
        token(&reg, &who(7, false), &request, Some(&channel("text")), true, url()),
        Err(TokenRefusal::NotVoice)
    );
    assert_eq!(token(&reg, &who(7, false), &request, Some(&voice), false, url()), Err(TokenRefusal::NotMember));
    assert_eq!(
        token(&reg, &who(7, false), &request, Some(&voice), true, None),
        Err(TokenRefusal::LivekitUnconfigured)
    );
    assert_eq!(token(&reg, &who(7, false), &request, Some(&voice), true, url()), Ok("wss://lk".to_string()));
    assert_eq!(token(&reg, &who(MUSIC_BOT_ID, true), &request, Some(&voice), false, url()), Ok("wss://lk".to_string()));
    let r = token_response("wss://lk".into(), C, Some("jwt".into())).unwrap();
    assert_eq!((r.url.as_str(), r.room, r.token.as_str()), ("wss://lk", C, "jwt"));
    assert!(matches!(token_response("u".into(), C, None), Err(TokenRefusal::TokenGenerationFailed)));
}

#[test]
fn a_full_channel_admits_spectators_bots_and_who_is_in_it() {
    let mut reg = VoiceRegistry::default();
    for i in 0..MAX_HUMAN_PARTICIPANTS as u128 {
        reg.webhook_participant_joined(C, 100 + i, format!("PA_{i}"));
    }
    let voice = channel("voice");
    let ask = |id: Uuid, is_bot: bool, mode: Mode| {
        let request = TokenRequest { channel_id: C, mode };
        token(&reg, &who(id, is_bot), &request, Some(&voice), true, Some("u".into()))
    };
    assert_eq!(ask(7, false, Mode::Participant), Err(TokenRefusal::ChannelFull));
    assert!(ask(100, false, Mode::Participant).is_ok());
    assert!(ask(7, false, Mode::Spectator).is_ok());
    assert!(ask(MUSIC_BOT_ID, true, Mode::Participant).is_ok());
}

#[test]
fn refusals_are_answered() {
    assert_eq!(TokenRefusal::NotMember.reason(), "not_member");
    assert_eq!(TokenRefusal::TokenGenerationFailed.reason(), "token_generation_failed");
    assert!(matches!(TokenRefusal::NotFound.to_error(), AppError::NotFound));
    assert!(matches!(TokenRefusal::NotVoice.to_error(), AppError::Forbidden));
    assert!(matches!(TokenRefusal::NotMember.to_error(), AppError::Forbidden));
    match TokenRefusal::ChannelFull.to_error() {
        AppError::Conflict { code, message } => {
            assert_eq!(code, "channel_full");
            assert_eq!(message, "este canal de voz já está cheio");
        }
        other => panic!("{other:?}"),
    }
    assert!(matches!(
        TokenRefusal::LivekitUnconfigured.to_error(),
        AppError::ServiceUnavailable(m) if m == "LiveKit is not configured"
    ));
}
