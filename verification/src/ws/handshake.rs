//! The first message of a connection, its heartbeat and its end.

use std::collections::HashSet;

use vstd::prelude::*;

use crate::clock::UtcTime;
use crate::ident::{Uuid, MUSIC_BOT_ID, NIL};
use crate::listing::{sorted_ids, sorted_members};
use crate::protocol::{
    ActivityUpdate, AuthHello, AuthOk, AuthRejected, OutboundEnvelope, Payload, PresenceEntry,
    PresenceSnapshot, PresenceUpdate, MAX_SERVER_PROTOCOL,
};
use crate::text::{optional_text, same_text, truncate_chars, truncated};
use crate::voice::rows::{ids_rise, law_ids_listed};

verus! {

/// How often an idle socket is pinged, in nanoseconds.
pub const HEARTBEAT_INTERVAL: i128 = 15_000_000_000;

/// How long a silent connection is kept, in nanoseconds.
pub const HEARTBEAT_TIMEOUT: i128 = 60_000_000_000;

/// How long a client has to say hello, in seconds.
pub const HELLO_TIMEOUT_SECS: u64 = 10;

/// How long after the last connection of a user is lost its channels are
/// confirmed, in milliseconds.
pub const LOST_RECONCILE_MS: u64 = 5_000;

/// How many characters of `client_version` are kept.
pub const CLIENT_VERSION_CHARS: usize = 64;

/// How many characters of `client_platform` are kept.
pub const CLIENT_PLATFORM_CHARS: usize = 32;

/// An account.
#[derive(Debug)]
pub struct User {
    pub id: Uuid,
    pub username: String,
    pub display_name: String,
    pub password_hash: String,
    pub avatar_color: Option<String>,
    pub avatar_storage_path: Option<String>,
    pub avatar_content_type: Option<String>,
    pub profile_tag: Option<String>,
    pub profile_badge_storage_path: Option<String>,
    pub profile_badge_content_type: Option<String>,
    pub name_color: Option<String>,
    pub bio: Option<String>,
    pub banner_preset: Option<String>,
    pub pronouns: Option<String>,
    pub created_at: UtcTime,
}

/// What is kept of a connection.
#[derive(Debug)]
pub struct ConnMeta {
    /// The dialect that was negotiated.
    pub protocol_version: u8,
    pub client_version: String,
    pub client_platform: String,
    pub connected_at: UtcTime,
}

/// Who is at the other end.
#[derive(Debug)]
pub struct Peer {
    pub user: User,
    pub session_id: Uuid,
    pub meta: ConnMeta,
}

/// What came first over a new connection.
#[derive(Debug)]
pub enum FirstMessage {
    /// Nothing in time, or nothing that is an envelope.
    Missing,
    /// An envelope, and its data where they read as `auth.hello`.
    Envelope { op: String, hello: Option<AuthHello> },
}

/// What is done about the first message.
#[derive(Debug)]
pub enum HelloStep {
    Reject,
    Admit(Peer),
    /// The token is to be looked up.
    Authenticate { token: String, meta: ConnMeta },
}

/// The lower of two dialects.
pub open spec fn lower(a: u8, b: u8) -> u8 {
    if a <= b {
        a
    } else {
        b
    }
}

/// The highest dialect that this server speaks, where the second one may be
/// switched off.
pub open spec fn server_max(v2_enabled: bool) -> u8 {
    if v2_enabled {
        MAX_SERVER_PROTOCOL
    } else {
        1
    }
}

/// What a client says of itself, or `"unknown"`, cut to `max` characters.
pub open spec fn claim(said: Option<String>, max: nat) -> Seq<char> {
    match said {
        Some(s) => truncated(s@, max),
        None => truncated("unknown"@, max),
    }
}

impl ConnMeta {
    /// Is this what is kept of a connection that said `hello`?
    pub open spec fn is_of(&self, hello: AuthHello, v2_enabled: bool, now: UtcTime) -> bool {
        &&& self.protocol_version == lower(hello.protocol_version, server_max(v2_enabled))
        &&& self.client_version@ == claim(hello.client_version, CLIENT_VERSION_CHARS as nat)
        &&& self.client_platform@ == claim(hello.client_platform, CLIENT_PLATFORM_CHARS as nat)
        &&& self.connected_at == now
    }
}

impl User {
    /// Is this the music bot's account?
    pub open spec fn is_music_bot(&self, now: UtcTime) -> bool {
        &&& self.id == MUSIC_BOT_ID
        &&& self.username@ == "tupi-musica"@
        &&& self.display_name@ == "Tupi Música"@
        &&& self.password_hash@ == Seq::<char>::empty()
        &&& optional_text(self.avatar_color) == Some("#5865f2"@)
        &&& self.avatar_storage_path is None
        &&& self.avatar_content_type is None
        &&& optional_text(self.profile_tag) == Some("BOT"@)
        &&& self.profile_badge_storage_path is None
        &&& self.profile_badge_content_type is None
        &&& optional_text(self.name_color) == Some("#5865f2"@)
        &&& optional_text(self.bio) == Some(
            "Bot de música oficial do Tupi. Toque qualquer música ou rádio usando os controles de voz."@,
        )
        &&& optional_text(self.banner_preset) == Some("synthwave"@)
        &&& optional_text(self.pronouns) == Some("ele/bot"@)
        &&& self.created_at == now
    }
}

/// The account of the music bot, which has no row of its own.
pub fn music_bot_user(now: UtcTime) -> (r: User)
    ensures
        r.is_music_bot(now),
{
    proof {
        reveal_strlit("");
    }
    let r = User {
        id: MUSIC_BOT_ID,
        username: "tupi-musica".to_string(),
        display_name: "Tupi Música".to_string(),
        password_hash: "".to_string(),
        avatar_color: Some("#5865f2".to_string()),
        avatar_storage_path: None,
        avatar_content_type: None,
        profile_tag: Some("BOT".to_string()),
        profile_badge_storage_path: None,
        profile_badge_content_type: None,
        name_color: Some("#5865f2".to_string()),
        bio: Some(
            "Bot de música oficial do Tupi. Toque qualquer música ou rádio usando os controles de voz.".to_string(),
        ),
        banner_preset: Some("synthwave".to_string()),
        pronouns: Some("ele/bot".to_string()),
        created_at: now,
    };
    assert(r.password_hash@ =~= Seq::<char>::empty());
    r
}

/// What a client says of itself, cut before it is kept.
fn cut_claim(said: &Option<String>, max: usize) -> (r: String)
    ensures
        r@ == claim(*said, max as nat),
{
    match said {
        Some(s) => truncate_chars(s.as_str(), max),
        None => truncate_chars("unknown", max),
    }
}

/// What is kept of a connection that said `hello`.
pub fn conn_meta(hello: &AuthHello, v2_enabled: bool, now: UtcTime) -> (r: ConnMeta)
    ensures
        r.is_of(*hello, v2_enabled, now),
{
    let server_max: u8 = if v2_enabled {
        MAX_SERVER_PROTOCOL
    } else {
        1
    };
    let protocol_version: u8 = if hello.protocol_version <= server_max {
        hello.protocol_version
    } else {
        server_max
    };
    ConnMeta {
        protocol_version,
        client_version: cut_claim(&hello.client_version, CLIENT_VERSION_CHARS),
        client_platform: cut_claim(&hello.client_platform, CLIENT_PLATFORM_CHARS),
        connected_at: now,
    }
}

/// Is this the hello of a client?
pub open spec fn is_hello(first: FirstMessage) -> bool {
    first matches FirstMessage::Envelope { op, hello } && op@ == "auth.hello"@ && hello is Some
}

/// What is done about the first message. The music bot is known by its
/// token; the token of anyone else is to be looked up.
pub fn on_first_message(first: FirstMessage, v2_enabled: bool, bot_token: &str, now: UtcTime) -> (r: HelloStep)
    ensures
        !is_hello(first) <==> r is Reject,
        is_hello(first) ==> {
            let hello = first->Envelope_hello->0;
            if hello.token@ == bot_token@ {
                &&& r is Admit
                &&& r->Admit_0.user.is_music_bot(now)
                &&& r->Admit_0.session_id == NIL
                &&& r->Admit_0.meta.is_of(hello, v2_enabled, now)
            } else {
                &&& r is Authenticate
                &&& r->Authenticate_token@ == hello.token@
                &&& r->Authenticate_meta.is_of(hello, v2_enabled, now)
            }
        },
{
    match first {
        FirstMessage::Envelope { op, hello: Some(hello) } => {
            if !same_text(op.as_str(), "auth.hello") {
                return HelloStep::Reject;
            }
            let meta: ConnMeta = conn_meta(&hello, v2_enabled, now);
            if same_text(hello.token.as_str(), bot_token) {
                HelloStep::Admit(Peer { user: music_bot_user(now), session_id: NIL, meta })
            } else {
                HelloStep::Authenticate { token: hello.token, meta }
            }
        },
        _ => HelloStep::Reject,
    }
}

/// Who is at the other end, once the token was looked up. `None`: the token
/// is good for no account.
pub fn on_authenticated(account: Option<(User, Uuid)>, meta: ConnMeta) -> (r: Option<Peer>)
    ensures
        match account {
            Some(found) => r == Some(Peer { user: found.0, session_id: found.1, meta }),
            None => r is None,
        },
{
    match account {
        Some((user, session_id)) => Some(Peer { user, session_id, meta }),
        None => None,
    }
}

/// What a rejected client is told before the connection is closed.
pub fn rejection() -> (r: OutboundEnvelope)
    ensures
        r.data is AuthRejected,
        r.data->AuthRejected_0.reason@ == "invalid_or_missing_token"@,
        r.is_message("auth.rejected"@, r.data),
{
    OutboundEnvelope::new(
        "auth.rejected",
        Payload::AuthRejected(AuthRejected { reason: "invalid_or_missing_token".to_string() }),
    )
}

/// What an admitted client is told first.
pub fn auth_ok(
    peer: &Peer,
    livekit_url: Option<String>,
    server_version: &str,
    features: Vec<String>,
) -> (r: OutboundEnvelope)
    ensures
        r.data is AuthOk,
        r.is_message("auth.ok"@, r.data),
        ({
            let ok = r.data->AuthOk_0;
            &&& ok.user_id == peer.user.id
            &&& ok.username@ == peer.user.username@
            &&& ok.display_name@ == peer.user.display_name@
            &&& ok.livekit_url == livekit_url
            &&& ok.protocol_version == peer.meta.protocol_version
            &&& ok.server_version@ == server_version@
            &&& ok.features == features
        }),
{
    OutboundEnvelope::new(
        "auth.ok",
        Payload::AuthOk(
            AuthOk {
                user_id: peer.user.id,
                username: peer.user.username.clone(),
                display_name: peer.user.display_name.clone(),
                livekit_url,
                protocol_version: peer.meta.protocol_version,
                server_version: server_version.to_string(),
                features,
            },
        ),
    )
}

/// Whose presence a new connection is told: that of everyone related to the
/// user, or of the user alone where they could not be looked up.
pub fn snapshot_members(related: Option<Vec<Uuid>>, user_id: Uuid) -> (r: Vec<Uuid>)
    ensures
        r@ == (match related {
            Some(ids) => ids@,
            None => seq![user_id],
        }),
{
    match related {
        Some(ids) => ids,
        None => vec![user_id],
    }
}

/// The presence of many members.
pub fn presence_snapshot(users: Vec<PresenceEntry>) -> (r: OutboundEnvelope)
    ensures
        r.is_message(
            "presence.snapshot"@,
            Payload::PresenceSnapshot(PresenceSnapshot { users }),
        ),
{
    OutboundEnvelope::new(
        "presence.snapshot",
        Payload::PresenceSnapshot(PresenceSnapshot { users }),
    )
}

/// Does this message say that `user_id` has `status`?
pub open spec fn is_presence_update(m: OutboundEnvelope, user_id: Uuid, status: Seq<char>) -> bool {
    &&& m.data is PresenceUpdate
    &&& m.is_message("presence.update"@, m.data)
    &&& m.data->PresenceUpdate_0.user_id == user_id
    &&& m.data->PresenceUpdate_0.status@ == status
}

/// The presence of one member.
pub fn presence_update(user_id: Uuid, status: &str) -> (r: OutboundEnvelope)
    ensures
        is_presence_update(r, user_id, status@),
{
    OutboundEnvelope::new(
        "presence.update",
        Payload::PresenceUpdate(PresenceUpdate { user_id, status: status.to_string() }),
    )
}

/// What the others are told of a new connection: that the user is online,
/// unless it was, or its absence was too short to be told of.
pub fn on_connected(user_id: Uuid, was_online: bool, cancelled_grace: bool) -> (r: Option<OutboundEnvelope>)
    ensures
        r is Some <==> !was_online && !cancelled_grace,
        r matches Some(m) ==> is_presence_update(m, user_id, "online"@),
{
    if !was_online && !cancelled_grace {
        Some(presence_update(user_id, "online"))
    } else {
        None
    }
}

/// What came of a socket.
#[derive(Debug)]
pub enum SocketEvent {
    /// It ended, or failed.
    Gone,
    Text(String),
    Ping(Vec<u8>),
    Close,
    /// A frame that asks for nothing.
    Other,
    /// It is time for a heartbeat.
    Tick,
}

/// What is done about it.
#[derive(Debug)]
pub enum SocketAction {
    Dispatch(String),
    Pong(Vec<u8>),
    /// Nothing.
    Wait,
    SendPing,
    /// The connection is given up.
    End,
}

/// How long a connection has been silent.
#[derive(Debug, Clone, Copy, PartialEq, Eq, Structural)]
pub struct Heartbeat {
    /// When a frame last came, by the monotonic clock.
    pub last_seen: i128,
}

impl Heartbeat {
    /// What is done about an event at `now`. Any frame shows that the client
    /// is alive; a heartbeat finds out whether it is.
    pub fn on_event(&mut self, event: SocketEvent, now: i128) -> (r: SocketAction)
        ensures
            match event {
                SocketEvent::Gone => r is End && *final(self) == *old(self),
                SocketEvent::Text(text) => r == SocketAction::Dispatch(text) && final(self).last_seen
                    == now,
                SocketEvent::Ping(payload) => r == SocketAction::Pong(payload)
                    && final(self).last_seen == now,
                SocketEvent::Close => r is End && final(self).last_seen == now,
                SocketEvent::Other => r is Wait && final(self).last_seen == now,
                SocketEvent::Tick => {
                    &&& *final(self) == *old(self)
                    &&& r is End <==> now - old(self).last_seen > HEARTBEAT_TIMEOUT
                    &&& r is SendPing <==> now - old(self).last_seen <= HEARTBEAT_TIMEOUT
                },
            },
    {
        match event {
            SocketEvent::Gone => SocketAction::End,
            SocketEvent::Text(text) => {
                self.last_seen = now;
                SocketAction::Dispatch(text)
            },
            SocketEvent::Ping(payload) => {
                self.last_seen = now;
                SocketAction::Pong(payload)
            },
            SocketEvent::Close => {
                self.last_seen = now;
                SocketAction::End
            },
            SocketEvent::Other => {
                self.last_seen = now;
                SocketAction::Wait
            },
            SocketEvent::Tick => {
                let too_long: bool = match now.checked_sub(self.last_seen) {
                    Some(silence) => silence > HEARTBEAT_TIMEOUT,
                    None => now > self.last_seen,
                };
                if too_long {
                    SocketAction::End
                } else {
                    SocketAction::SendPing
                }
            },
        }
    }
}

/// What follows the end of a connection. The socket does not carry the media:
/// losing it puts nobody out of a call. The channels that it announced are
/// confirmed instead, once the last connection of the user is gone.
pub fn on_disconnected(was_last: bool, joined: &HashSet<Uuid>) -> (r: Option<Vec<Uuid>>)
    ensures
        r is Some <==> was_last,
        r matches Some(channels) ==> channels@ == sorted_ids(joined@),
{
    if was_last {
        Some(sorted_members(joined))
    } else {
        None
    }
}

/// Has the user stayed away until the grace period was over? Not if it is
/// back, or if it came and went since. Who has is gone, unless someone else
/// sees to it.
pub fn stayed_away(online: bool, epoch_is_current: bool) -> (r: bool)
    ensures
        r == (!online && epoch_is_current),
{
    !online && epoch_is_current
}

/// What the others are told of a user who is gone: that it does nothing any
/// more, where it did something, and that it is offline.
pub fn on_gone(user_id: Uuid, had_activities: bool) -> (r: (Option<OutboundEnvelope>, OutboundEnvelope))
    ensures
        r.0 is Some <==> had_activities,
        r.0 matches Some(m) ==> {
            &&& m.data is ActivityUpdate
            &&& m.is_message("activity.update"@, m.data)
            &&& m.data->ActivityUpdate_0.user_id == user_id
            &&& m.data->ActivityUpdate_0.activities@.len() == 0
        },
        is_presence_update(r.1, user_id, "offline"@),
{
    let cleared: Option<OutboundEnvelope> = if had_activities {
        Some(
            OutboundEnvelope::new(
                "activity.update",
                Payload::ActivityUpdate(ActivityUpdate { user_id, activities: Vec::new() }),
            ),
        )
    } else {
        None
    };
    (cleared, presence_update(user_id, "offline"))
}

/// A connection never speaks a dialect that its client or this server does
/// not.
pub proof fn law_dialect_understood_by_both(meta: ConnMeta, hello: AuthHello, v2_enabled: bool, now: UtcTime)
    requires
        meta.is_of(hello, v2_enabled, now),
    ensures
        meta.protocol_version <= hello.protocol_version,
        meta.protocol_version <= MAX_SERVER_PROTOCOL,
        !v2_enabled ==> meta.protocol_version <= 1,
        meta.client_version@.len() <= CLIENT_VERSION_CHARS,
        meta.client_platform@.len() <= CLIENT_PLATFORM_CHARS,
{
}

/// What is kept of a connection: the highest dialect that both ends speak, what
/// its client says of its version and platform, or `unknown`, cut to sixty-four
/// and thirty-two characters, and when it came.
pub proof fn law_connection_kept(meta: ConnMeta, hello: AuthHello, v2_enabled: bool, now: UtcTime, i: int)
    requires
        meta.is_of(hello, v2_enabled, now),
    ensures
        ({
            let most: u8 = if v2_enabled {
                2
            } else {
                1
            };
            &&& hello.protocol_version <= most ==> meta.protocol_version == hello.protocol_version
            &&& hello.protocol_version > most ==> meta.protocol_version == most
            &&& hello.client_version is None ==> meta.client_version@ == "unknown"@
            &&& hello.client_version matches Some(s) ==> {
                &&& s@.len() <= 64 ==> meta.client_version@ == s@
                &&& s@.len() > 64 ==> meta.client_version@.len() == 64
                &&& 0 <= i < meta.client_version@.len() ==> meta.client_version@[i] == s@[i]
            }
            &&& hello.client_platform is None ==> meta.client_platform@ == "unknown"@
            &&& hello.client_platform matches Some(s) ==> {
                &&& s@.len() <= 32 ==> meta.client_platform@ == s@
                &&& s@.len() > 32 ==> meta.client_platform@.len() == 32
                &&& 0 <= i < meta.client_platform@.len() ==> meta.client_platform@[i] == s@[i]
            }
            &&& meta.connected_at == now
        }),
{
    reveal_strlit("unknown");
    assert("unknown"@.len() == 7);
}

/// The account of the music bot.
pub proof fn law_music_bot_account(user: User, now: UtcTime)
    requires
        user.is_music_bot(now),
    ensures
        user.id == 1,
        user.username@ == "tupi-musica"@,
        user.display_name@ == "Tupi Música"@,
        user.password_hash@.len() == 0,
        user.avatar_color is Some && user.avatar_color->0@ == "#5865f2"@,
        user.name_color is Some && user.name_color->0@ == "#5865f2"@,
        user.profile_tag is Some && user.profile_tag->0@ == "BOT"@,
        user.bio is Some && user.bio->0@
            == "Bot de música oficial do Tupi. Toque qualquer música ou rádio usando os controles de voz."@,
        user.banner_preset is Some && user.banner_preset->0@ == "synthwave"@,
        user.pronouns is Some && user.pronouns->0@ == "ele/bot"@,
        user.avatar_storage_path is None && user.avatar_content_type is None,
        user.profile_badge_storage_path is None && user.profile_badge_content_type is None,
        user.created_at == now,
{
}

/// The first message is a hello if and only if it is an envelope of that name
/// whose data can be read.
pub proof fn law_hello(first: FirstMessage)
    ensures
        is_hello(first) <==> first is Envelope && first->op@ == "auth.hello"@ && first->hello is Some,
{
}

/// A presence update says whose status it is and which.
pub proof fn law_presence_told(m: OutboundEnvelope, user_id: Uuid, status: Seq<char>)
    requires
        is_presence_update(m, user_id, status),
    ensures
        m.v == 1,
        m.op@ == "presence.update"@,
        m.data is PresenceUpdate,
        m.data->PresenceUpdate_0.user_id == user_id,
        m.data->PresenceUpdate_0.status@ == status,
{
}

/// What comes first decides: what is not a hello is rejected; the bot is known
/// by its token and admitted; the token of anyone else is to be looked up. What
/// is kept of the connection is what its client said.
pub proof fn law_first_message_read(
    first: FirstMessage,
    v2_enabled: bool,
    bot_token: &str,
    now: UtcTime,
    r: HelloStep,
)
    requires
        call_ensures(on_first_message, (first, v2_enabled, bot_token, now), r),
    ensures
        ({
            let hello = first->hello->0;
            let said = first is Envelope && first->op@ == "auth.hello"@ && first->hello is Some;
            let bot = said && hello.token@ == bot_token@;
            let most: u8 = if v2_enabled {
                2
            } else {
                1
            };
            let meta = if bot {
                r->Admit_0.meta
            } else {
                r->meta
            };
            &&& r is Reject <==> !said
            &&& r is Admit <==> bot
            &&& r is Authenticate <==> said && !bot
            &&& bot ==> r->Admit_0.user.id == 1 && r->Admit_0.session_id == 0
            &&& r is Authenticate ==> r->token@ == hello.token@
            &&& said ==> {
                &&& hello.protocol_version <= most ==> meta.protocol_version == hello.protocol_version
                &&& hello.protocol_version > most ==> meta.protocol_version == most
                &&& meta.connected_at == now
            }
        }),
{
    law_hello(first);
    if is_hello(first) {
        let hello = first->hello->0;
        if hello.token@ == bot_token@ {
            law_connection_kept(r->Admit_0.meta, hello, v2_enabled, now, 0);
            law_music_bot_account(r->Admit_0.user, now);
        } else {
            law_connection_kept(r->meta, hello, v2_enabled, now, 0);
        }
    }
}

/// A token that is good for an account admits that account, in its session.
pub proof fn law_account_admitted(account: Option<(User, Uuid)>, meta: ConnMeta, r: Option<Peer>)
    requires
        call_ensures(on_authenticated, (account, meta), r),
    ensures
        r is Some <==> account is Some,
        account matches Some(found) ==> r->0.user == found.0 && r->0.session_id == found.1 && r->0.meta
            == meta,
{
}

/// What a client is told first: why it is rejected, or who it is, by which
/// dialect it is spoken to, and where and what the server is.
pub proof fn law_greeting_told(
    rejected: OutboundEnvelope,
    peer: &Peer,
    livekit_url: Option<String>,
    server_version: &str,
    features: Vec<String>,
    r: OutboundEnvelope,
)
    requires
        call_ensures(rejection, (), rejected),
        call_ensures(auth_ok, (peer, livekit_url, server_version, features), r),
    ensures
        rejected.v == 1 && rejected.op@ == "auth.rejected"@ && rejected.data is AuthRejected,
        rejected.data->AuthRejected_0.reason@ == "invalid_or_missing_token"@,
        r.v == 1 && r.op@ == "auth.ok"@ && r.data is AuthOk,
        r.data->AuthOk_0.user_id == peer.user.id,
        r.data->AuthOk_0.username@ == peer.user.username@,
        r.data->AuthOk_0.display_name@ == peer.user.display_name@,
        r.data->AuthOk_0.livekit_url == livekit_url,
        r.data->AuthOk_0.protocol_version == peer.meta.protocol_version,
        r.data->AuthOk_0.server_version@ == server_version@,
        r.data->AuthOk_0.features == features,
{
}

/// A new connection is told the presence of everyone related to its user, or of
/// the user alone where that is not known. The others are told that the user is
/// online unless they took it to be.
pub proof fn law_arrival_told(
    related: Option<Vec<Uuid>>,
    user_id: Uuid,
    members: Vec<Uuid>,
    users: Vec<PresenceEntry>,
    snapshot: OutboundEnvelope,
    was_online: bool,
    cancelled_grace: bool,
    r: Option<OutboundEnvelope>,
)
    requires
        call_ensures(snapshot_members, (related, user_id), members),
        call_ensures(presence_snapshot, (users,), snapshot),
        call_ensures(on_connected, (user_id, was_online, cancelled_grace), r),
    ensures
        related is Some ==> members@ == related->0@,
        related is None ==> members@.len() == 1 && members@[0] == user_id,
        snapshot.v == 1 && snapshot.op@ == "presence.snapshot"@ && snapshot.data is PresenceSnapshot,
        snapshot.data->PresenceSnapshot_0.users == users,
        r is None <==> was_online || cancelled_grace,
        r is Some ==> {
            let m = r->0;
            &&& m.v == 1 && m.op@ == "presence.update"@ && m.data is PresenceUpdate
            &&& m.data->PresenceUpdate_0.user_id == user_id
            &&& m.data->PresenceUpdate_0.status@ == "online"@
        },
{
}

/// Any frame shows that the client is alive, from that moment on; a text is to
/// be read, a ping to be answered with what it carried. A heartbeat gives up a
/// connection that has been silent for more than a minute, and pings any other
/// one. Only the end of the socket, a close and that silence end it.
pub proof fn law_socket_watched(beat: &mut Heartbeat, event: SocketEvent, now: i128, r: SocketAction)
    requires
        call_ensures(Heartbeat::on_event, (beat, event, now), r),
    ensures
        event is Gone || event is Tick ==> final(beat).last_seen == old(beat).last_seen,
        !(event is Gone || event is Tick) ==> final(beat).last_seen == now,
        event is Text ==> r == SocketAction::Dispatch(event->Text_0),
        event is Ping ==> r == SocketAction::Pong(event->Ping_0),
        event is Other ==> r is Wait,
        event is Tick ==> r is End || r is SendPing,
        r is End <==> event is Gone || event is Close || (event is Tick && now - old(beat).last_seen
            > 60_000_000_000),
{
}

/// When the last connection of a user is lost the channels that it announced are
/// to be confirmed, in order; while another is left nothing is. Who stays away is
/// told to be offline, and to do nothing any more where it did something.
pub proof fn law_departure_told(
    was_last: bool,
    joined: &HashSet<Uuid>,
    channels: Option<Vec<Uuid>>,
    online: bool,
    epoch_is_current: bool,
    away: bool,
    user_id: Uuid,
    had_activities: bool,
    r: (Option<OutboundEnvelope>, OutboundEnvelope),
    c: Uuid,
)
    requires
        joined@.finite(),
        call_ensures(on_disconnected, (was_last, joined), channels),
        call_ensures(stayed_away, (online, epoch_is_current), away),
        call_ensures(on_gone, (user_id, had_activities), r),
    ensures
        channels is Some <==> was_last,
        channels is Some ==> (channels->0@.contains(c) <==> joined@.contains(c)) && ids_rise(channels->0@),
        away <==> !online && epoch_is_current,
        r.0 is Some <==> had_activities,
        r.0 is Some ==> {
            let m = r.0->0;
            &&& m.v == 1 && m.op@ == "activity.update"@ && m.data is ActivityUpdate
            &&& m.data->ActivityUpdate_0.user_id == user_id
            &&& m.data->ActivityUpdate_0.activities@.len() == 0
        },
        r.1.v == 1 && r.1.op@ == "presence.update"@ && r.1.data is PresenceUpdate,
        r.1.data->PresenceUpdate_0.user_id == user_id,
        r.1.data->PresenceUpdate_0.status@ == "offline"@,
{
    law_ids_listed(joined@, c);
}

/// A client has ten seconds to say hello. A socket is pinged every fifteen
/// seconds, so that four pings go unanswered before it is given up. The channels
/// of a user whose last connection is lost are confirmed five seconds later.
pub proof fn law_connection_delays()
    ensures
        HELLO_TIMEOUT_SECS == 10,
        HEARTBEAT_INTERVAL == 15 * 1_000_000_000,
        HEARTBEAT_TIMEOUT == 4 * HEARTBEAT_INTERVAL,
        LOST_RECONCILE_MS == 5 * 1000,
{
}

} // verus!
