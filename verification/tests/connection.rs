use std::collections::HashSet;

use tupi_voice::clock::{Reading, UtcTime};
use tupi_voice::ident::{Uuid, MUSIC_BOT_ID, NIL};
use tupi_voice::protocol::{
    Activity, AuthHello, CallStateUpdate, Channel, ChatMessageCreate, ChatMessageDelete,
    ChatMessageEdit, ChatTyping, DmOpen, MusicCommand, MusicStatus, MusicStatusItem, OutboundEnvelope,
    Payload, PresenceSet, StreamPublish, VoiceDisconnectMember, VoiceMoveMember, VoicePresence,
    VoicePresenceHint, VoiceRoomRequest, VoiceRoster, VoiceRosterEntry, VoiceTrack, VoiceTrackHint,
};
use tupi_voice::voice::VoiceRegistry;
use tupi_voice::ws::activity::{enrich_playtime, enrich_with, session_changes, Game, GameStats};
use tupi_voice::ws::chat::{
    all_different, check_create, check_edit, on_deleted, on_edited, AttachmentRow, ChangeAction, Changed,
    EditedRow, MessageRow, Sending, Stage, StoreAction, StoreEvent,
};
use tupi_voice::ws::dispatch::{
    dispatch, dm_opened, dm_plan, invalid_payload, malformed_envelope, presence_set, typing, unknown_op,
    Command, Inbound, Op,
};
use tupi_voice::ws::handshake::{
    auth_ok, on_authenticated, on_connected, on_disconnected, on_first_message, on_gone, rejection,
    snapshot_members, stayed_away, FirstMessage, Heartbeat, HelloStep, SocketAction, SocketEvent, HEARTBEAT_TIMEOUT,
};
use tupi_voice::ws::moderation::{on_disconnect_member, on_move_member};
use tupi_voice::ws::music::{
    check_status, check_stream, is_fitting_status, on_command, on_stream_published, on_stream_unpublished,
    status_message, CallOpError,
};
use tupi_voice::ws::presence::{
    on_call_state_update, on_presence_hint, on_presence_hint_at, on_room_request, on_track_hint, room_state,
    rooms_snapshot, takes_rooms, wanted_channels, TrackOutcome,
};

const C: Uuid = 9000;
const D: Uuid = 9001;
const NOW: UtcTime = UtcTime { secs: 1_700_000_000, nanos: 0 };

fn at(mono: i128) -> Reading {
    Reading { utc: NOW, mono }
}

fn channel(id: Uuid, kind: &str) -> Channel {
    Channel {
        id,
        community_id: 40,
        category_id: None,
        name: "c".into(),
        kind: kind.into(),
        topic: None,
        position: 0,
    }
}

fn error_of(m: &OutboundEnvelope) -> (&str, &str, Option<&str>) {
    assert_eq!(m.v, 1);
    assert_eq!(m.op, "error");
    match &m.data {
        Payload::Error(e) => (e.code.as_str(), e.message.as_str(), e.in_reply_to.as_deref()),
        _ => panic!("not an error: {m:?}"),
    }
}

fn hello(token: &str, protocol_version: u8) -> AuthHello {
    AuthHello {
        token: token.into(),
        protocol_version,
        client_version: Some("v".repeat(100)),
        client_platform: None,
    }
}

fn first(op: &str, hello: Option<AuthHello>) -> FirstMessage {
    FirstMessage::Envelope { op: op.into(), hello }
}

#[test]
fn a_client_says_hello_first() {
    assert!(matches!(on_first_message(FirstMessage::Missing, true, "b", NOW), HelloStep::Reject));
    assert!(matches!(on_first_message(first("auth.hello", None), true, "b", NOW), HelloStep::Reject));
    let other = first("chat.typing", Some(hello("t", 2)));
    assert!(matches!(on_first_message(other, true, "b", NOW), HelloStep::Reject));
    match on_first_message(first("auth.hello", Some(hello("t", 9))), true, "b", NOW) {
        HelloStep::Authenticate { token, meta } => {
            assert_eq!(token, "t");
            assert_eq!(meta.protocol_version, 2);
            assert_eq!(meta.client_version, "v".repeat(64));
            assert_eq!(meta.client_platform, "unknown");
            assert_eq!(meta.connected_at, NOW);
            assert!(on_authenticated(None, meta).is_none());
        }
        other => panic!("{other:?}"),
    }
}

#[test]
fn the_bot_is_known_by_its_token() {
    match on_first_message(first("auth.hello", Some(hello("b", 2))), false, "b", NOW) {
        HelloStep::Admit(peer) => {
            assert_eq!(peer.user.id, MUSIC_BOT_ID);
            assert_eq!(peer.user.username, "tupi-musica");
            assert_eq!(peer.user.display_name, "Tupi Música");
            assert_eq!(peer.session_id, NIL);
            assert_eq!(peer.meta.protocol_version, 1, "the second dialect is off");
            let m = auth_ok(&peer, None, "0.2.0", vec!["voice.hints".into()]);
            assert_eq!(m.op, "auth.ok");
            match m.data {
                Payload::AuthOk(ok) => {
                    assert_eq!(ok.user_id, MUSIC_BOT_ID);
                    assert_eq!(ok.protocol_version, 1);
                    assert_eq!(ok.server_version, "0.2.0");
                    assert_eq!(ok.features, vec!["voice.hints"]);
                }
                _ => panic!("not auth.ok"),
            }
            let meta = peer.meta;
            assert_eq!(on_authenticated(Some((peer.user, 77)), meta).unwrap().session_id, 77);
        }
        other => panic!("{other:?}"),
    }
}

#[test]
fn a_rejected_client_is_told_why() {
    let m = rejection();
    assert_eq!(m.op, "auth.rejected");
    assert!(matches!(m.data, Payload::AuthRejected(r) if r.reason == "invalid_or_missing_token"));
}

#[test]
fn online_is_told_once() {
    assert!(on_connected(7, true, false).is_none());
    assert!(on_connected(7, false, true).is_none());
    let m = on_connected(7, false, false).unwrap();
    assert_eq!(m.op, "presence.update");
    assert!(matches!(m.data, Payload::PresenceUpdate(u) if u.user_id == 7 && u.status == "online"));
    assert_eq!(snapshot_members(None, 7), vec![7]);
    assert_eq!(snapshot_members(Some(vec![8, 9]), 7), vec![8, 9]);
}

#[test]
fn silence_ends_a_connection() {
    let mut h = Heartbeat { last_seen: 0 };
    assert!(matches!(h.on_event(SocketEvent::Tick, HEARTBEAT_TIMEOUT), SocketAction::SendPing));
    assert!(matches!(h.on_event(SocketEvent::Tick, HEARTBEAT_TIMEOUT + 1), SocketAction::End));
    assert!(matches!(h.on_event(SocketEvent::Other, 5), SocketAction::Wait));
    assert_eq!(h.last_seen, 5);
    assert!(matches!(h.on_event(SocketEvent::Text("x".into()), 6), SocketAction::Dispatch(t) if t == "x"));
    assert!(matches!(h.on_event(SocketEvent::Ping(vec![1]), 7), SocketAction::Pong(p) if p == vec![1]));
    assert!(matches!(h.on_event(SocketEvent::Tick, HEARTBEAT_TIMEOUT + 7), SocketAction::SendPing));
    assert!(matches!(h.on_event(SocketEvent::Close, 8), SocketAction::End));
    assert!(matches!(h.on_event(SocketEvent::Gone, 9), SocketAction::End));
    assert_eq!(h.last_seen, 8);
}

#[test]
fn losing_the_last_socket_confirms_the_announced_channels() {
    let joined: HashSet<Uuid> = HashSet::from([D, C]);
    assert_eq!(on_disconnected(true, &joined), Some(vec![C, D]));
    assert_eq!(on_disconnected(false, &joined), None);
    assert!(stayed_away(false, true));
    assert!(!stayed_away(true, true));
    assert!(!stayed_away(false, false));
    let (cleared, offline) = on_gone(7, true);
    assert_eq!(cleared.unwrap().op, "activity.update");
    assert!(matches!(offline.data, Payload::PresenceUpdate(u) if u.status == "offline"));
    assert!(on_gone(7, false).0.is_none());
}

#[test]
fn operations_are_known_by_their_names() {
    assert_eq!(Op::parse("voice.presence.hint"), Some(Op::VoicePresenceHint));
    assert_eq!(Op::parse("voice.rooms.request"), Some(Op::VoiceRoomsRequest));
    assert_eq!(Op::parse("music.status"), Some(Op::MusicStatus));
    assert_eq!(Op::parse("voice.room.delta"), None);
    assert_eq!(Op::parse(""), None);
    assert_eq!(error_of(&unknown_op("x.y")), ("unknown_op", "unknown op: x.y", None));
    assert_eq!(error_of(&malformed_envelope("eof")), ("bad_request", "malformed envelope: eof", None));
    assert_eq!(
        error_of(&invalid_payload("dm.open", "missing field")),
        ("bad_request", "invalid payload for dm.open: missing field", None)
    );
}

#[test]
fn the_first_dialect_is_translated() {
    match dispatch(Inbound::VoicePresenceEnter(VoicePresence { channel_id: C })) {
        Some(Command::VoicePresenceHint(h)) => {
            assert_eq!((h.channel_id, h.state.as_str(), h.participant_sid), (C, "joining", None));
        }
        other => panic!("{other:?}"),
    }
    match dispatch(Inbound::VoicePresenceLeave(VoicePresence { channel_id: C })) {
        Some(Command::VoicePresenceHint(h)) => assert_eq!(h.state, "leaving"),
        other => panic!("{other:?}"),
    }
    match dispatch(Inbound::VoiceRoomsRequest) {
        Some(Command::VoiceRoomRequest(q)) => assert!(q.channel_ids.is_empty()),
        other => panic!("{other:?}"),
    }
    let track = |sid: Option<&str>| VoiceTrack {
        channel_id: C,
        source: "camera".into(),
        track_sid: sid.map(str::to_string),
    };
    match dispatch(Inbound::VoiceTrackUnpublished(track(Some("TR_1")))) {
        Some(Command::VoiceTrackHint(h)) => {
            assert_eq!((h.track_sid.as_str(), h.source.as_str(), h.state.as_str()), ("TR_1", "camera", "unpublished"));
        }
        other => panic!("{other:?}"),
    }
    assert!(dispatch(Inbound::VoiceTrackPublished(track(None))).is_none());
    assert!(matches!(
        dispatch(Inbound::ChatTyping(ChatTyping { channel_id: C })),
        Some(Command::ChatTyping(d)) if d.channel_id == C
    ));
}

#[test]
fn presence_is_busy_or_online() {
    let (status, m) = presence_set(7, &PresenceSet { status: "busy".into() });
    assert_eq!(status, "busy");
    assert!(matches!(m.data, Payload::PresenceUpdate(u) if u.status == "busy"));
    assert_eq!(presence_set(7, &PresenceSet { status: "asleep".into() }).0, "online");
}

#[test]
fn two_members_share_one_private_channel() {
    let a = dm_plan(7, 8, Some(40)).unwrap();
    let b = dm_plan(8, 7, Some(40)).unwrap();
    assert_eq!(
        a.topic,
        "dm:00000000-0000-0000-0000-000000000007:00000000-0000-0000-0000-000000000008"
    );
    assert_eq!(a.topic, b.topic);
    assert_eq!((a.name.as_str(), a.kind.as_str(), a.position), ("dm", "text", 9999));
    assert!(dm_plan(7, 7, Some(40)).is_none());
    assert!(dm_plan(7, 8, None).is_none());
    let m = dm_opened(channel(C, "text"), DmOpen { target_user_id: 8, req_id: Some("r".into()) });
    assert_eq!(m.op, "dm.opened");
    assert!(matches!(m.data, Payload::DmOpened(d) if d.target_user_id == 8 && d.channel.id == C));
}

#[test]
fn typing_is_told_in_text_channels() {
    let data = ChatTyping { channel_id: C };
    let (community, m) = typing(7, Some(&channel(C, "text")), &data).unwrap();
    assert_eq!(community, 40);
    assert_eq!(m.op, "chat.typing");
    assert!(typing(7, Some(&channel(C, "voice")), &data).is_none());
    assert!(typing(7, None, &data).is_none());
}

fn create(content: &str, attachment_ids: Vec<Uuid>) -> ChatMessageCreate {
    ChatMessageCreate { channel_id: C, content: content.into(), attachment_ids, req_id: Some("r1".into()) }
}

#[test]
fn messages_are_checked_before_they_are_stored() {
    let text = channel(C, "text");
    let fault = |data: &ChatMessageCreate, c: Option<&Channel>| {
        check_create(data, c).map(|m| {
            let (code, message, reply) = error_of(&m);
            assert_eq!(reply, Some("r1"));
            (code.to_string(), message.to_string())
        })
    };
    assert_eq!(
        fault(&create("x", vec![]), None).unwrap(),
        ("forbidden".into(), "not a member of this channel's community".into())
    );
    assert_eq!(
        fault(&create("x", vec![]), Some(&channel(C, "voice"))).unwrap().1,
        "messages can only be sent to text channels"
    );
    for bad in [create(" \n", vec![]), create(&"x".repeat(4001), vec![]), create(&"é".repeat(2001), vec![1])] {
        assert_eq!(
            fault(&bad, Some(&text)).unwrap(),
            ("validation_error".into(), "message must be 1..=4000 chars or contain attachments".into())
        );
    }
    for bad in [create("x", (1..=11).collect()), create("x", vec![1, 2, 1])] {
        assert_eq!(fault(&bad, Some(&text)).unwrap().1, "attachments must contain at most 10 unique ids");
    }
    assert!(fault(&create("", vec![1]), Some(&text)).is_none());
    assert!(fault(&create(&"x".repeat(4000), (1..=10).collect()), Some(&text)).is_none());
    assert!(all_different(&vec![]));
    assert!(!all_different(&vec![3, 3]));
}

fn row(is_new_insert: bool) -> MessageRow {
    MessageRow {
        id: 500,
        channel_id: C,
        author_id: 7,
        content: "hi".into(),
        created_at: NOW,
        edited_at: None,
        is_new_insert,
    }
}

fn attachment(id: Uuid) -> AttachmentRow {
    AttachmentRow { id, filename: "f".into(), content_type: "image/png".into(), size_bytes: 9 }
}

#[test]
fn a_new_message_is_announced_once_it_is_committed() {
    let s = Sending::start(create("hi", vec![1]), 40);
    let (s, a) = s.on_event(StoreEvent::Opened(true));
    assert!(matches!(a, StoreAction::Store));
    let (s, a) = s.on_event(StoreEvent::Stored(Some(row(true))));
    assert!(matches!(a, StoreAction::Associate { message_id: 500 }));
    let (s, a) = s.on_event(StoreEvent::Associated(Some(1)));
    assert!(matches!(a, StoreAction::Read));
    let (s, a) = s.on_event(StoreEvent::Read(vec![attachment(1)]));
    assert!(matches!(a, StoreAction::Commit));
    let (s, a) = s.on_event(StoreEvent::Committed(true));
    match a {
        StoreAction::Announce { community_id, message, row } => {
            assert_eq!((community_id, row.id), (40, 500));
            match message.data {
                Payload::ChatMessageCreated(c) => {
                    assert_eq!(c.in_reply_to.as_deref(), Some("r1"));
                    assert_eq!(c.message.attachment_ids, vec![1]);
                    assert_eq!(
                        c.message.attachments[0].url,
                        "/api/attachments/00000000-0000-0000-0000-000000000001"
                    );
                    assert!(c.message.music_status.is_none());
                }
                _ => panic!("not a message"),
            }
        }
        other => panic!("{other:?}"),
    }
    assert!(matches!(s.stage, Stage::Done));
    let (_, a) = s.on_event(StoreEvent::Committed(true));
    assert!(matches!(a, StoreAction::Ignore));
}

#[test]
fn a_retry_is_answered_to_its_sender_alone() {
    let (s, _) = Sending::start(create("hi", vec![]), 40).on_event(StoreEvent::Opened(true));
    let (_, a) = s.on_event(StoreEvent::Stored(Some(row(false))));
    assert!(matches!(a, StoreAction::RollBackAndAnswer(m) if m.op == "chat.message.created"));
    let (s, _) = Sending::start(create("hi", vec![1]), 40).on_event(StoreEvent::Opened(true));
    let (s, a) = s.on_event(StoreEvent::Stored(Some(row(false))));
    assert!(matches!(a, StoreAction::RollBackAndRead));
    let (_, a) = s.on_event(StoreEvent::Read(vec![]));
    assert!(matches!(a, StoreAction::Answer(m) if m.op == "chat.message.created"));
}

#[test]
fn a_store_that_fails_is_told_to_the_sender() {
    let failed = ("internal_error", "failed to send message", Some("r1"));
    let (_, a) = Sending::start(create("hi", vec![]), 40).on_event(StoreEvent::Opened(false));
    assert!(matches!(a, StoreAction::Answer(m) if error_of(&m) == failed));
    let (s, _) = Sending::start(create("hi", vec![1]), 40).on_event(StoreEvent::Opened(true));
    let (_, a) = s.on_event(StoreEvent::Stored(None));
    assert!(matches!(a, StoreAction::Answer(m) if error_of(&m) == failed));
    let stored = || {
        let (s, _) = Sending::start(create("hi", vec![1, 2]), 40).on_event(StoreEvent::Opened(true));
        s.on_event(StoreEvent::Stored(Some(row(true)))).0
    };
    let (_, a) = stored().on_event(StoreEvent::Associated(Some(1)));
    assert!(matches!(
        a,
        StoreAction::RollBackAndAnswer(m)
            if error_of(&m) == ("validation_error", "one or more attachments are unavailable", Some("r1"))
    ));
    let (_, a) = stored().on_event(StoreEvent::Associated(None));
    assert!(matches!(a, StoreAction::RollBackAndAnswer(m) if error_of(&m) == failed));
    let (s, _) = Sending::start(create("hi", vec![]), 40).on_event(StoreEvent::Opened(true));
    let (s, a) = s.on_event(StoreEvent::Stored(Some(row(true))));
    assert!(matches!(a, StoreAction::Commit));
    let (_, a) = s.on_event(StoreEvent::Committed(false));
    assert!(matches!(a, StoreAction::Answer(m) if error_of(&m) == failed));
}

#[test]
fn edits_and_deletions_are_told_to_the_community() {
    let edit = ChatMessageEdit { message_id: 500, content: "x".into(), req_id: None };
    assert!(check_edit(&edit).is_none());
    let blank = ChatMessageEdit { message_id: 500, content: "\t".into(), req_id: Some("r".into()) };
    assert_eq!(
        error_of(&check_edit(&blank).unwrap()),
        ("validation_error", "message must be 1..=4000 chars", Some("r"))
    );
    let edited = || Changed::Yes(EditedRow { id: 500, channel_id: C, content: "x".into(), edited_at: Some(NOW) });
    match on_edited(&edited(), Some(40), &edit) {
        ChangeAction::Announce { community_id: 40, message, preview: Some(text) } => {
            assert_eq!((text.message_id, text.channel_id, text.content.as_str()), (500, C, "x"));
            assert!(matches!(message.data, Payload::ChatMessageEdited(e) if e.edited_at == Some(NOW)));
        }
        other => panic!("{other:?}"),
    }
    assert!(matches!(on_edited(&edited(), None, &edit), ChangeAction::Silence));
    assert!(matches!(on_edited(&Changed::Failed, Some(40), &edit), ChangeAction::Silence));
    let not_yours = ("forbidden", "message not found or not yours", None);
    assert!(matches!(on_edited(&Changed::No, None, &edit), ChangeAction::Answer(m) if error_of(&m) == not_yours));
    let delete = ChatMessageDelete { message_id: 500, req_id: None };
    match on_deleted(&Changed::Yes((500, C)), Some(40), &delete) {
        ChangeAction::Announce { community_id: 40, message, preview: None } => {
            assert_eq!(message.op, "chat.message.deleted");
        }
        other => panic!("{other:?}"),
    }
    assert!(matches!(on_deleted(&Changed::Yes((500, C)), None, &delete), ChangeAction::Silence));
    assert!(matches!(on_deleted(&Changed::Failed, Some(40), &delete), ChangeAction::Silence));
    assert!(matches!(on_deleted(&Changed::No, None, &delete), ChangeAction::Answer(m) if error_of(&m) == not_yours));
}

fn command(command: &str, query: Option<&str>) -> MusicCommand {
    MusicCommand {
        channel_id: 50,
        voice_channel_id: C,
        command: command.into(),
        query: query.map(str::to_string),
    }
}

#[test]
fn music_commands_are_checked_in_turn() {
    let mut reg = VoiceRegistry::default();
    let text = channel(50, "text");
    let fault = |reg: &VoiceRegistry, c: MusicCommand, reply: Option<&Channel>, online: bool| {
        let m = on_command(reg, 7, c, reply, online).unwrap_err();
        let (code, message, _) = error_of(&m);
        (code.to_string(), message.to_string())
    };
    assert_eq!(fault(&reg, command("dance", None), None, false).1, "comando de música desconhecido");
    assert_eq!(
        fault(&reg, command("play", None), None, false),
        ("forbidden".into(), "entre no canal de voz antes de controlar o bot".into())
    );
    reg.webhook_participant_joined(C, 7, "PA_7".into());
    assert_eq!(fault(&reg, command("play", Some("  ")), None, false).1, "use /play <link ou nome>");
    assert_eq!(fault(&reg, command("play", None), None, false).1, "use /play <link ou nome>");
    assert_eq!(
        fault(&reg, command("play", Some("x")), None, false),
        ("forbidden".into(), "canal de resposta indisponível".into())
    );
    assert_eq!(
        fault(&reg, command("skip", None), Some(&channel(50, "voice")), false).1,
        "as atualizações do bot exigem um canal de texto"
    );
    assert_eq!(fault(&reg, command("skip", None), Some(&text), false).0, "service_unavailable");
    let m = on_command(&reg, 7, command("play", Some("x")), Some(&text), true).unwrap();
    assert_eq!(m.op, "music.command");
    match m.data {
        Payload::MusicCommand(c) => {
            assert_eq!((c.channel_id, c.voice_channel_id, c.requested_by), (50, C, 7));
            assert_eq!((c.command.as_str(), c.query.as_deref()), ("play", Some("x")));
        }
        _ => panic!("not a command"),
    }
}

fn status() -> MusicStatus {
    MusicStatus {
        status_id: 60,
        channel_id: 50,
        kind: "playing".into(),
        origin: None,
        provider: None,
        title: None,
        artist: None,
        detail: None,
        count: None,
        position: None,
        queue_size: None,
        duration_ms: None,
        total_duration_ms: None,
        eta_ms: None,
        image_url: None,
        source_url: None,
        collection_name: None,
        collection_kind: None,
        requested_by: None,
        items: vec![],
    }
}

#[test]
fn a_status_has_to_fit() {
    let item = |title: &str, artist: Option<String>| MusicStatusItem { title: title.into(), artist, duration_ms: None };
    assert!(is_fitting_status(&status()));
    let full = MusicStatus {
        kind: "queue".into(),
        origin: Some("spotify".into()),
        provider: Some("cache".into()),
        title: Some("t".repeat(500)),
        artist: Some("a".repeat(300)),
        detail: Some("d".repeat(2000)),
        image_url: Some("https://x".into()),
        source_url: Some("http://x".into()),
        collection_name: Some("c".repeat(500)),
        collection_kind: Some("album".into()),
        items: (0..10).map(|_| item("t", None)).collect(),
        ..status()
    };
    assert!(is_fitting_status(&full));
    let bad = vec![
        MusicStatus { kind: "singing".into(), ..status() },
        MusicStatus { origin: Some("tape".into()), ..status() },
        MusicStatus { provider: Some("spotify".into()), ..status() },
        MusicStatus { title: Some("t".repeat(501)), ..status() },
        MusicStatus { artist: Some("a".repeat(301)), ..status() },
        MusicStatus { detail: Some("d".repeat(2001)), ..status() },
        MusicStatus { image_url: Some("x.png".into()), ..status() },
        MusicStatus { source_url: Some(format!("https://{}", "x".repeat(1993))), ..status() },
        MusicStatus { collection_name: Some("c".repeat(501)), ..status() },
        MusicStatus { collection_kind: Some("shelf".into()), ..status() },
        MusicStatus { items: (0..11).map(|_| item("t", None)).collect(), ..status() },
        MusicStatus { items: vec![item("", None)], ..status() },
        MusicStatus { items: vec![item(&"t".repeat(501), None)], ..status() },
        MusicStatus { items: vec![item("t", Some("a".repeat(301)))], ..status() },
    ];
    for s in &bad {
        assert!(!is_fitting_status(s), "{s:?}");
        assert_eq!(
            error_of(&check_status(MUSIC_BOT_ID, s, Some(&channel(50, "text"))).unwrap()),
            ("validation_error", "estado de música inválido", None)
        );
    }
}

#[test]
fn only_the_bot_tells_what_it_does() {
    let text = channel(50, "text");
    assert_eq!(error_of(&check_status(7, &status(), Some(&text)).unwrap()).0, "forbidden");
    assert_eq!(
        error_of(&check_status(MUSIC_BOT_ID, &status(), None).unwrap()),
        ("not_found", "canal de texto não encontrado", None)
    );
    assert_eq!(error_of(&check_status(MUSIC_BOT_ID, &status(), Some(&channel(50, "voice"))).unwrap()).0, "not_found");
    assert!(check_status(MUSIC_BOT_ID, &status(), Some(&text)).is_none());
    let m = status_message(50, status(), 501, NOW);
    match m.data {
        Payload::ChatMessageCreated(c) => {
            assert_eq!((c.message.id, c.message.author_id), (501, MUSIC_BOT_ID));
            assert_eq!(c.message.content, "");
            assert_eq!(c.message.music_status.unwrap().status_id, 60);
        }
        _ => panic!("not a message"),
    }
}

#[test]
fn the_music_row_follows_the_stream() {
    let stream = |kind: &str| StreamPublish {
        channel_id: C,
        stream_id: 70,
        kind: kind.into(),
        label: None,
        has_audio: true,
        msid: None,
    };
    assert!(check_stream(MUSIC_BOT_ID, &stream("music")).is_none());
    for m in [check_stream(7, &stream("music")), check_stream(MUSIC_BOT_ID, &stream("screen"))] {
        assert_eq!(error_of(&m.unwrap()).1, "only the music bot may publish this stream");
    }
    let mut reg = VoiceRegistry::default();
    for (e, code, message) in [
        (CallOpError::NotInCall, "forbidden", "join the call before publishing"),
        (CallOpError::StreamAlreadyPublished, "conflict", "music is already playing in this channel"),
        (CallOpError::Other, "validation_error", "unable to publish music"),
    ] {
        let m = on_stream_published(&mut reg, C, Err(e)).unwrap_err();
        assert_eq!(error_of(&m), (code, message, None));
    }
    assert!(reg.room(C).is_none());
    assert_eq!(on_stream_published(&mut reg, C, Ok(())).unwrap().tracks_added.len(), 1);
    for (e, code, message) in [
        (CallOpError::NotStreamOwner, "forbidden", "you do not own this stream"),
        (CallOpError::Other, "not_found", "music stream not found"),
    ] {
        let m = on_stream_unpublished(&mut reg, C, Err(e)).unwrap_err();
        assert_eq!(error_of(&m), (code, message, None));
    }
    assert_eq!(on_stream_unpublished(&mut reg, C, Ok(())).unwrap().tracks_removed.len(), 1);
}

fn hint(state: &str, sid: Option<&str>) -> VoicePresenceHint {
    VoicePresenceHint { channel_id: C, state: state.into(), participant_sid: sid.map(str::to_string) }
}

#[test]
fn joining_a_channel_leaves_the_others() {
    let mut reg = VoiceRegistry::default();
    reg.webhook_participant_joined(D, 7, "PA_7".into());
    reg.hint_joining(9002, 7, None, false);
    let mut joined: HashSet<Uuid> = HashSet::from([D, 9002, C]);
    let voice = channel(C, "voice");
    let o = on_presence_hint_at(&mut reg, &mut joined, 7, Some(&voice), true, &hint("joining", None), at(0));
    assert!(o.refused.is_none());
    assert_eq!(o.reconcile, vec![D], "a confirmed row is not taken out");
    assert_eq!(o.changes.len(), 3);
    assert!(o.changes[0].is_empty());
    assert!(o.changes[1].room_closed);
    assert_eq!(o.changes[2].participants_added.len(), 1);
    assert!(!o.end_session);
    assert_eq!(joined, HashSet::from([C]));
    assert!(reg.is_participant(D, 7));
}

#[test]
fn leaving_ends_a_session_that_the_client_names() {
    let mut reg = VoiceRegistry::default();
    reg.webhook_participant_joined(C, 7, "PA_7".into());
    let voice = channel(C, "voice");
    for (sid, ends) in [(Some("PA_7"), true), (Some("PA_8"), false), (None, false)] {
        let mut joined: HashSet<Uuid> = HashSet::from([C]);
        let o = on_presence_hint(&mut reg, &mut joined, 7, Some(&voice), true, &hint("leaving", sid));
        assert_eq!(o.end_session, ends);
        assert_eq!(o.reconcile, vec![C]);
        assert!(o.changes[0].is_empty());
        assert!(joined.is_empty());
        assert!(reg.is_participant(C, 7));
    }
    reg.hint_joining(C, 8, None, false);
    let o = on_presence_hint(&mut reg, &mut HashSet::new(), 8, Some(&voice), true, &hint("leaving", None));
    assert_eq!(o.changes[0].participants_removed, vec![8]);
    assert!(o.reconcile.is_empty());
}

#[test]
fn a_presence_hint_needs_a_voice_channel() {
    let mut reg = VoiceRegistry::default();
    let mut joined: HashSet<Uuid> = HashSet::from([D]);
    let text = channel(C, "text");
    for c in [None, Some(&text)] {
        let o = on_presence_hint(&mut reg, &mut joined, 7, c, true, &hint("joining", None));
        assert_eq!(error_of(&o.refused.unwrap()), ("forbidden", "not allowed to join this voice channel", None));
        assert!(o.changes.is_empty());
    }
    let voice = channel(C, "voice");
    let o = on_presence_hint(&mut reg, &mut joined, 7, Some(&voice), false, &hint("joining", None));
    assert!(o.refused.is_some(), "a stranger may not join");
    let o = on_presence_hint(&mut reg, &mut joined, 7, Some(&voice), true, &hint("pondering", None));
    assert!(o.refused.is_none() && o.changes.is_empty());
    assert_eq!(joined, HashSet::from([D]));
    assert!(reg.room(C).is_none());
    let o = on_presence_hint(&mut reg, &mut joined, MUSIC_BOT_ID, Some(&voice), false, &hint("joining", None));
    assert!(o.refused.is_none(), "the bot is a member of no community");
    assert!(reg.is_participant(C, MUSIC_BOT_ID));
}

#[test]
fn track_hints_are_heard_from_who_joined() {
    let mut reg = VoiceRegistry::default();
    reg.webhook_participant_joined(C, 7, "PA_7".into());
    reg.webhook_participant_joined(C, 8, "PA_8".into());
    let track = |source: &str, state: &str| VoiceTrackHint {
        channel_id: C,
        track_sid: "TR_1".into(),
        source: source.into(),
        state: state.into(),
    };
    let joined: HashSet<Uuid> = HashSet::from([C]);
    let ignored = |o: TrackOutcome| matches!(o, TrackOutcome::Ignored);
    assert!(ignored(on_track_hint(&mut reg, &joined, 7, track("unknown", "published"))));
    assert!(ignored(on_track_hint(&mut reg, &joined, 7, track("microphone", "published"))));
    assert!(ignored(on_track_hint(&mut reg, &joined, 7, track("camera", "pondered"))));
    assert!(ignored(on_track_hint(&mut reg, &HashSet::new(), 7, track("camera", "published"))));
    assert!(ignored(on_track_hint(&mut reg, &joined, 7, track("camera", "unpublished"))));
    match on_track_hint(&mut reg, &joined, 7, track("camera", "published")) {
        TrackOutcome::Changed(c) => assert_eq!(c.tracks_added[0].owner, 7),
        other => panic!("{other:?}"),
    }
    match on_track_hint(&mut reg, &joined, 8, track("camera", "unpublished")) {
        TrackOutcome::Refused(m) => assert_eq!(error_of(&m), ("forbidden", "you do not own this track", None)),
        other => panic!("{other:?}"),
    }
    assert!(matches!(
        on_track_hint(&mut reg, &joined, 7, track("camera", "unpublished")),
        TrackOutcome::Changed(_)
    ));
}

#[test]
fn a_request_names_so_many_channels_at_most() {
    let many = VoiceRoomRequest { channel_ids: (0..150).collect() };
    assert_eq!(on_room_request(true, many).unwrap(), (0..100).collect::<Vec<Uuid>>());
    let few = VoiceRoomRequest { channel_ids: vec![C] };
    assert_eq!(on_room_request(true, few).unwrap(), vec![C]);
    let m = on_room_request(false, VoiceRoomRequest { channel_ids: vec![] }).unwrap_err();
    assert_eq!(error_of(&m), ("rate_limited", "muitas solicitações de estado", None));
}

#[test]
fn a_snapshot_shows_active_rooms_only() {
    assert!(takes_rooms(Some(2)) && !takes_rooms(Some(1)) && !takes_rooms(None));
    let mut reg = VoiceRegistry::default();
    reg.webhook_participant_joined(D, 8, "PA_8".into());
    reg.webhook_participant_joined(C, 7, "PA_7".into());
    reg.set_music_row(9002, true);
    assert_eq!(wanted_channels(&reg, &vec![]), vec![C, D]);
    assert_eq!(wanted_channels(&reg, &vec![D, 9002]), vec![D]);
    let rooms_of = |m: OutboundEnvelope| match m.data {
        Payload::VoiceRoomState(s) => {
            assert!(s.full);
            (s.channel_ids, s.rooms.iter().map(|r| r.channel_id).collect::<Vec<Uuid>>())
        }
        _ => panic!("not a snapshot"),
    };
    assert_eq!(rooms_of(room_state(&reg, &vec![D, C, 9002, 1], vec![])), (None, vec![D, C]));
    assert_eq!(rooms_of(room_state(&reg, &vec![D], vec![D, 1])), (Some(vec![D, 1]), vec![D]));
}

#[test]
fn rosters_with_nobody_are_left_out() {
    let roster = |channel_id: Uuid, n: Uuid| VoiceRoster {
        channel_id,
        participants: (0..n)
            .map(|user_id| VoiceRosterEntry {
                user_id,
                muted: false,
                deafened: false,
                sharing: false,
                is_bot: false,
            })
            .collect(),
        streams: vec![],
    };
    match rooms_snapshot(vec![roster(1, 0), roster(2, 1), roster(3, 0), roster(4, 2)]).data {
        Payload::VoiceRooms(s) => {
            assert_eq!(s.rooms.iter().map(|r| r.channel_id).collect::<Vec<Uuid>>(), vec![2, 4]);
        }
        _ => panic!("not rosters"),
    }
}

#[test]
fn muting_is_told_to_everyone_in_the_channel() {
    let mut reg = VoiceRegistry::default();
    let update = CallStateUpdate { channel_id: C, muted: Some(true), deafened: None };
    let m = on_call_state_update(&mut reg, 7, &update).unwrap_err();
    assert_eq!(error_of(&m), ("forbidden", "join the call before changing participant state", None));
    reg.webhook_participant_joined(C, 7, "PA_7".into());
    reg.webhook_participant_joined(C, 3, "PA_3".into());
    for first in [true, false] {
        let o = on_call_state_update(&mut reg, 7, &update).unwrap();
        assert_eq!(o.recipients, vec![3, 7]);
        assert_eq!(o.change.is_empty(), !first);
        assert_eq!(o.message.op, "call.state.update");
        assert!(matches!(o.message.data, Payload::CallStateUpdate(e) if e.user_id == 7 && e.muted && !e.deafened));
    }
}

#[test]
fn the_owner_moves_members() {
    let mut reg = VoiceRegistry::default();
    let voice = channel(D, "voice");
    let to = |user_id: Uuid| VoiceMoveMember { user_id, channel_id: D };
    let fault = |r: Result<tupi_voice::ws::moderation::Order, OutboundEnvelope>| {
        let m = r.unwrap_err();
        let (code, message, _) = error_of(&m);
        (code.to_string(), message.to_string())
    };
    assert_eq!(fault(on_move_member(&reg, 7, &to(8), None, true, true, true)).0, "not_found");
    assert_eq!(fault(on_move_member(&reg, 7, &to(8), Some(&channel(D, "text")), true, true, true)).0, "not_found");
    assert_eq!(fault(on_move_member(&reg, 7, &to(8), Some(&voice), false, true, true)).0, "forbidden");
    assert_eq!(
        fault(on_move_member(&reg, 7, &to(8), Some(&voice), true, false, true)).1,
        "that member is not in this community"
    );
    assert_eq!(
        fault(on_move_member(&reg, 7, &to(8), Some(&voice), true, true, true)).1,
        "that member is not in a voice channel"
    );
    reg.webhook_participant_joined(C, 8, "PA_8".into());
    assert_eq!(
        fault(on_move_member(&reg, 7, &to(8), Some(&voice), true, true, false)).1,
        "that member is not in a voice channel"
    );
    let order = on_move_member(&reg, 7, &to(8), Some(&voice), true, true, true).unwrap();
    assert_eq!((order.recipient, order.end_session), (8, false));
    assert_eq!(order.reconcile, vec![C, D]);
    assert!(matches!(order.message.data, Payload::VoiceMoved(m) if m.channel_id == D && m.moved_by == 7));
    let own = on_move_member(&reg, 7, &to(7), Some(&voice), true, false, false).unwrap();
    assert_eq!(own.recipient, 7);
    assert!(own.reconcile.is_empty());
    reg.webhook_participant_joined(C, MUSIC_BOT_ID, "PA_b".into());
    assert!(on_move_member(&reg, 7, &to(MUSIC_BOT_ID), Some(&voice), true, false, true).is_ok());
}

#[test]
fn putting_out_asks_livekit_and_changes_nothing_here() {
    let mut reg = VoiceRegistry::default();
    let voice = channel(C, "voice");
    let out = |user_id: Uuid| VoiceDisconnectMember { user_id, channel_id: C };
    let fault = |r: Result<tupi_voice::ws::moderation::Order, OutboundEnvelope>| {
        let m = r.unwrap_err();
        error_of(&m).1.to_string()
    };
    assert_eq!(fault(on_disconnect_member(&reg, 7, &out(8), None, true, true)), "voice channel not found");
    assert_eq!(
        fault(on_disconnect_member(&reg, 7, &out(8), Some(&voice), true, false)),
        "only the community owner can disconnect members"
    );
    assert_eq!(
        fault(on_disconnect_member(&reg, 7, &out(MUSIC_BOT_ID), Some(&voice), false, true)),
        "join this community first"
    );
    assert_eq!(
        fault(on_disconnect_member(&reg, 7, &out(8), Some(&voice), false, true)),
        "that member is not in this voice channel"
    );
    reg.webhook_participant_joined(C, 8, "PA_8".into());
    reg.webhook_participant_joined(C, MUSIC_BOT_ID, "PA_b".into());
    let order = on_disconnect_member(&reg, 7, &out(8), Some(&voice), false, true).unwrap();
    assert!(order.end_session);
    assert_eq!((order.recipient, order.reconcile), (8, vec![C]));
    assert!(matches!(order.message.data, Payload::VoiceDisconnected(d) if d.by == 7));
    let bot = on_disconnect_member(&reg, 7, &out(MUSIC_BOT_ID), Some(&voice), true, false).unwrap();
    assert!(!bot.end_session);
    assert_eq!(bot.message.op, "music.command");
    assert!(matches!(bot.message.data, Payload::MusicStop(s) if s.command == "stop" && s.reason == "disconnected"));
    assert!(reg.is_participant(C, 8));
}

fn game(key: &str, name: &str) -> Game {
    Game { key: key.into(), name: name.into() }
}

#[test]
fn playtime_rows_follow_the_games() {
    let previous = vec![game("b", "B"), game("a", "A")];
    let current = vec![game("c", "old"), game("a", "A"), game("c", "C"), game("d", "D")];
    let (open, close) = session_changes(&previous, &current);
    let open: Vec<(&str, &str)> = open.iter().map(|g| (g.key.as_str(), g.name.as_str())).collect();
    assert_eq!(open, vec![("c", "C"), ("d", "D")]);
    assert_eq!(close, vec!["b"]);
    assert!(session_changes(&current, &current).0.is_empty());
}

#[test]
fn playtime_is_written_into_activities() {
    let activity = || Activity {
        kind: "playing".into(),
        name: "Chess".into(),
        details: Some("e4".into()),
        state: None,
        started_at: None,
        asset_image: None,
        asset_text: None,
        total_seconds: None,
        last_played_at: None,
        is_new: None,
    };
    let stats = GameStats {
        total_seconds: 60,
        last_played_at: Some(UtcTime { secs: 1_431_648_000, nanos: 0 }),
        is_new: false,
    };
    let a = enrich_playtime(activity(), &stats);
    assert_eq!(a.total_seconds, Some(60));
    assert_eq!(a.last_played_at.as_deref(), Some("2015-05-15T00:00:00+00:00"));
    assert_eq!(a.is_new, Some(false));
    assert_eq!((a.name.as_str(), a.details.as_deref()), ("Chess", Some("e4")));
    let b = enrich_with(activity(), &GameStats { last_played_at: None, is_new: true, ..stats }, None);
    assert_eq!((b.last_played_at, b.is_new), (None, Some(true)));
}
