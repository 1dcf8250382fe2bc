//! Who is admitted to a room, and why someone is not.

use vstd::prelude::*;

use crate::ident::{Uuid, MUSIC_BOT_ID};
use crate::protocol::Channel;
use crate::text::{has_prefix, same_text, starts_with};
use crate::voice::model::RegistryModel;
use crate::voice::registry::VoiceRegistry;
use crate::voice::types::MAX_HUMAN_PARTICIPANTS;

verus! {

/// As what someone wants to be admitted. A spectator is hidden and takes no
/// place.
#[derive(Debug, Clone, Copy, PartialEq, Eq, Structural)]
pub enum Mode {
    Participant,
    Spectator,
}

/// A request for a token.
#[derive(Debug)]
pub struct TokenRequest {
    pub channel_id: Uuid,
    pub mode: Mode,
}

/// A token, and where it is good for.
#[derive(Debug)]
pub struct TokenResponse {
    pub url: String,
    pub room: Uuid,
    pub token: String,
}

/// Who asks.
#[derive(Debug)]
pub struct Identity {
    pub id: Uuid,
    pub name: String,
    pub is_bot: bool,
}

/// Why no token is given.
#[derive(Debug, Clone, Copy, PartialEq, Eq, Structural)]
pub enum TokenRefusal {
    NotFound,
    NotVoice,
    NotMember,
    ChannelFull,
    LivekitUnconfigured,
    TokenGenerationFailed,
}

/// How a refusal is answered.
#[derive(Debug)]
pub enum AppError {
    NotFound,
    Forbidden,
    Conflict { code: String, message: String },
    ServiceUnavailable(String),
}

impl TokenRefusal {
    /// The name of a reason.
    pub open spec fn wire(self) -> Seq<char> {
        match self {
            TokenRefusal::NotFound => "not_found"@,
            TokenRefusal::NotVoice => "not_voice"@,
            TokenRefusal::NotMember => "not_member"@,
            TokenRefusal::ChannelFull => "channel_full"@,
            TokenRefusal::LivekitUnconfigured => "livekit_unconfigured"@,
            TokenRefusal::TokenGenerationFailed => "token_generation_failed"@,
        }
    }

    /// The name of this reason.
    pub fn reason(&self) -> (r: &'static str)
        ensures
            r@ == self.wire(),
    {
        match self {
            TokenRefusal::NotFound => "not_found",
            TokenRefusal::NotVoice => "not_voice",
            TokenRefusal::NotMember => "not_member",
            TokenRefusal::ChannelFull => "channel_full",
            TokenRefusal::LivekitUnconfigured => "livekit_unconfigured",
            TokenRefusal::TokenGenerationFailed => "token_generation_failed",
        }
    }

    /// How this refusal is answered.
    pub fn to_error(&self) -> (r: AppError)
        ensures
            match *self {
                TokenRefusal::NotFound => r is NotFound,
                TokenRefusal::NotVoice => r is Forbidden,
                TokenRefusal::NotMember => r is Forbidden,
                TokenRefusal::ChannelFull => r matches AppError::Conflict { code, message } && code@
                    == "channel_full"@ && message@ == "este canal de voz já está cheio"@,
                TokenRefusal::LivekitUnconfigured => r matches AppError::ServiceUnavailable(m) && m@
                    == "LiveKit is not configured"@,
                TokenRefusal::TokenGenerationFailed => r matches AppError::ServiceUnavailable(m) && m@
                    == "LiveKit is not configured"@,
            },
    {
        match self {
            TokenRefusal::NotFound => AppError::NotFound,
            TokenRefusal::NotVoice => AppError::Forbidden,
            TokenRefusal::NotMember => AppError::Forbidden,
            TokenRefusal::ChannelFull => AppError::Conflict {
                code: "channel_full".to_string(),
                message: "este canal de voz já está cheio".to_string(),
            },
            TokenRefusal::LivekitUnconfigured => AppError::ServiceUnavailable(
                "LiveKit is not configured".to_string(),
            ),
            TokenRefusal::TokenGenerationFailed => AppError::ServiceUnavailable(
                "LiveKit is not configured".to_string(),
            ),
        }
    }
}

/// The token of an authorization header, if it holds one.
pub fn bearer(header: &str) -> (r: Option<String>)
    ensures
        r is Some <==> has_prefix(header@, "Bearer "@),
        r matches Some(token) ==> header@ == "Bearer "@ + token@,
{
    if !starts_with(header, "Bearer ") {
        return None;
    }
    proof {
        reveal_strlit("Bearer ");
    }
    let n: usize = header.unicode_len();
    let token: String = header.substring_char(7, n).to_string();
    proof {
        assert(header@ =~= header@.take(7) + header@.skip(7));
        assert(token@ =~= header@.skip(7));
    }
    Some(token)
}

/// The music bot, where the token is the bot's. Anyone else is to be looked
/// up.
pub fn bot_identity(token: &str, bot_token: &str) -> (r: Option<Identity>)
    ensures
        r is Some <==> token@ == bot_token@,
        r matches Some(who) ==> who.id == MUSIC_BOT_ID && who.name@ == "Music bot"@ && who.is_bot,
{
    if same_text(token, bot_token) {
        Some(Identity { id: MUSIC_BOT_ID, name: "Music bot".to_string(), is_bot: true })
    } else {
        None
    }
}

/// Is there a place for `user` in `channel`? Who is in it keeps its place.
pub open spec fn has_place(m: RegistryModel, channel: Uuid, user: Uuid) -> bool {
    ||| m.rooms.contains_key(channel) && m.rooms[channel].participants.contains_key(user)
    ||| !(m.rooms.contains_key(channel) && m.rooms[channel].human_count() >= MAX_HUMAN_PARTICIPANTS)
}

/// Why no token is given, as far as that shows before one is made.
pub open spec fn token_fault(
    m: RegistryModel,
    who: Identity,
    request: TokenRequest,
    channel: Option<&Channel>,
    is_member: bool,
    livekit_url: Option<String>,
) -> Option<TokenRefusal> {
    if channel is None {
        Some(TokenRefusal::NotFound)
    } else if channel->0.kind@ != "voice"@ {
        Some(TokenRefusal::NotVoice)
    } else if !who.is_bot && !is_member {
        Some(TokenRefusal::NotMember)
    } else if !who.is_bot && request.mode == Mode::Participant && !has_place(
        m,
        request.channel_id,
        who.id,
    ) {
        Some(TokenRefusal::ChannelFull)
    } else if livekit_url is None {
        Some(TokenRefusal::LivekitUnconfigured)
    } else {
        None
    }
}

/// May `who` have a token? Then the address of the server that it is for.
/// `channel`: the one that is asked for, where there is one; `is_member`: is
/// who asks a member of its community?
pub fn token(
    registry: &VoiceRegistry,
    who: &Identity,
    request: &TokenRequest,
    channel: Option<&Channel>,
    is_member: bool,
    livekit_url: Option<String>,
) -> (r: Result<String, TokenRefusal>)
    ensures
        match token_fault(registry@, *who, *request, channel, is_member, livekit_url) {
            Some(refusal) => r == Err::<String, TokenRefusal>(refusal),
            None => r matches Ok(url) && Some(url) == livekit_url,
        },
{
    match channel {
        Some(c) => {
            if !same_text(c.kind.as_str(), "voice") {
                return Err(TokenRefusal::NotVoice);
            }
        },
        None => {
            return Err(TokenRefusal::NotFound);
        },
    }
    if !who.is_bot && !is_member {
        return Err(TokenRefusal::NotMember);
    }
    if !who.is_bot && request.mode == Mode::Participant {
        let already_in: bool = registry.is_participant(request.channel_id, who.id);
        let full: bool = registry.is_full(request.channel_id);
        if !already_in && full {
            return Err(TokenRefusal::ChannelFull);
        }
    }
    match livekit_url {
        Some(url) => Ok(url),
        None => Err(TokenRefusal::LivekitUnconfigured),
    }
}

/// The answer to a request, once a token was made, or could not be.
pub fn token_response(url: String, room: Uuid, made: Option<String>) -> (r: Result<
    TokenResponse,
    TokenRefusal,
>)
    ensures
        match made {
            Some(token) => r == Ok::<TokenResponse, TokenRefusal>(TokenResponse { url, room, token }),
            None => r == Err::<TokenResponse, TokenRefusal>(TokenRefusal::TokenGenerationFailed),
        },
{
    match made {
        Some(token) => Ok(TokenResponse { url, room, token }),
        None => Err(TokenRefusal::TokenGenerationFailed),
    }
}

/// A full channel refuses people who are not in it, and nobody else: not
/// spectators, not the bot, and not who is in it already.
pub proof fn law_full_channel_refuses(
    m: RegistryModel,
    who: Identity,
    request: TokenRequest,
    channel: &Channel,
    is_member: bool,
    livekit_url: Option<String>,
)
    requires
        channel.kind@ == "voice"@,
        who.is_bot || is_member,
        m.rooms.contains_key(request.channel_id),
        m.rooms[request.channel_id].human_count() >= MAX_HUMAN_PARTICIPANTS,
    ensures
        token_fault(m, who, request, Some(channel), is_member, livekit_url) == Some(
            TokenRefusal::ChannelFull,
        ) <==> !who.is_bot && request.mode == Mode::Participant
            && !m.rooms[request.channel_id].participants.contains_key(who.id),
{
}

/// A token is given if and only if the channel is a voice channel, LiveKit is
/// configured, and who asks is the bot, or is of the community and wants to
/// watch, is in the channel, or finds fewer than ten people in it.
pub proof fn law_token_given(
    m: RegistryModel,
    who: Identity,
    request: TokenRequest,
    channel: Option<&Channel>,
    is_member: bool,
    livekit_url: Option<String>,
)
    ensures
        token_fault(m, who, request, channel, is_member, livekit_url) is None <==> {
            let c = request.channel_id;
            &&& channel is Some && channel->0.kind@ == "voice"@
            &&& livekit_url is Some
            &&& who.is_bot || {
                &&& is_member
                &&& request.mode == Mode::Spectator || !m.rooms.contains_key(c)
                    || m.rooms[c].participants.contains_key(who.id) || m.rooms[c].human_count() < 10
            }
        },
{
}

/// Why no token is given: there is no such channel; or it is not a voice
/// channel; or who asks is not of the community; or the channel is full; or
/// LiveKit is not configured. The first that holds is told.
pub proof fn law_token_refused(
    m: RegistryModel,
    who: Identity,
    request: TokenRequest,
    channel: Option<&Channel>,
    is_member: bool,
    livekit_url: Option<String>,
)
    ensures
        ({
            let fault = token_fault(m, who, request, channel, is_member, livekit_url);
            let c = request.channel_id;
            let voice = channel is Some && channel->0.kind@ == "voice"@;
            let known = who.is_bot || is_member;
            let full = !who.is_bot && request.mode == Mode::Participant && m.rooms.contains_key(c)
                && !m.rooms[c].participants.contains_key(who.id) && m.rooms[c].human_count() >= 10;
            &&& channel is None ==> fault == Some(TokenRefusal::NotFound)
            &&& channel is Some && !voice ==> fault == Some(TokenRefusal::NotVoice)
            &&& voice && !known ==> fault == Some(TokenRefusal::NotMember)
            &&& voice && known && full ==> fault == Some(TokenRefusal::ChannelFull)
            &&& voice && known && !full && livekit_url is None ==> fault == Some(
                TokenRefusal::LivekitUnconfigured,
            )
        }),
{
}

/// Each reason for which no token is given has its name.
pub proof fn law_refusal_names(refusal: TokenRefusal)
    ensures
        refusal.wire() == match refusal {
            TokenRefusal::NotFound => "not_found"@,
            TokenRefusal::NotVoice => "not_voice"@,
            TokenRefusal::NotMember => "not_member"@,
            TokenRefusal::ChannelFull => "channel_full"@,
            TokenRefusal::LivekitUnconfigured => "livekit_unconfigured"@,
            TokenRefusal::TokenGenerationFailed => "token_generation_failed"@,
        },
{
}

/// A token is given to whom it is owed, for the server that is configured; each
/// other request is refused for the first reason that holds.
pub proof fn law_token_decided(
    registry: &VoiceRegistry,
    who: &Identity,
    request: &TokenRequest,
    channel: Option<&Channel>,
    is_member: bool,
    livekit_url: Option<String>,
    r: Result<String, TokenRefusal>,
)
    requires
        call_ensures(token, (registry, who, request, channel, is_member, livekit_url), r),
    ensures
        ({
            let m = registry@;
            let c = request.channel_id;
            let voice = channel is Some && channel->0.kind@ == "voice"@;
            let known = who.is_bot || is_member;
            let full = !who.is_bot && request.mode == Mode::Participant && m.rooms.contains_key(c)
                && !m.rooms[c].participants.contains_key(who.id) && m.rooms[c].human_count() >= 10;
            &&& r is Ok <==> voice && known && !full && livekit_url is Some
            &&& r is Ok ==> r->Ok_0 == livekit_url->0
            &&& r is Err ==> r->Err_0 == if channel is None {
                TokenRefusal::NotFound
            } else if !voice {
                TokenRefusal::NotVoice
            } else if !known {
                TokenRefusal::NotMember
            } else if full {
                TokenRefusal::ChannelFull
            } else {
                TokenRefusal::LivekitUnconfigured
            }
        }),
{
    law_token_refused(registry@, *who, *request, channel, is_member, livekit_url);
    law_token_given(registry@, *who, *request, channel, is_member, livekit_url);
}

/// How each refusal is answered: that there is no such channel; that it is
/// forbidden; that the channel is full; or that LiveKit is not configured.
pub proof fn law_refusal_answered(refusal: &TokenRefusal, r: AppError)
    requires
        call_ensures(TokenRefusal::to_error, (refusal,), r),
    ensures
        r is NotFound <==> *refusal == TokenRefusal::NotFound,
        r is Forbidden <==> *refusal == TokenRefusal::NotVoice || *refusal == TokenRefusal::NotMember,
        r is Conflict <==> *refusal == TokenRefusal::ChannelFull,
        r matches AppError::Conflict { code, message } ==> code@ == "channel_full"@ && message@
            == "este canal de voz já está cheio"@,
        r matches AppError::ServiceUnavailable(text) ==> text@ == "LiveKit is not configured"@,
{
}

/// The token of an authorization header is what follows `Bearer `, and there is
/// one only where that is what it begins with.
pub proof fn law_bearer_read(header: &str, r: Option<String>, rest: Seq<char>)
    requires
        call_ensures(bearer, (header,), r),
    ensures
        r is Some ==> header@ == "Bearer "@ + r->0@,
        header@ == "Bearer "@ + rest ==> r is Some && r->0@ == rest,
{
    if header@ == "Bearer "@ + rest {
        crate::text::law_prefix(header@, "Bearer "@, rest);
        let n = "Bearer "@.len() as int;
        assert(header@.skip(n) =~= rest);
        assert(header@.skip(n) =~= r->0@);
    }
}

/// The music bot is known by its token, and nobody else is.
pub proof fn law_bot_known(token: &str, bot_token: &str, r: Option<Identity>)
    requires
        call_ensures(bot_identity, (token, bot_token), r),
    ensures
        r is Some <==> token@ == bot_token@,
        r is Some ==> r->0.id == 1 && r->0.name@ == "Music bot"@ && r->0.is_bot,
{
}

/// A token that was made is given with its address and its room; where none
/// could be made, that is told.
pub proof fn law_token_handed_over(
    url: String,
    room: Uuid,
    made: Option<String>,
    r: Result<TokenResponse, TokenRefusal>,
)
    requires
        call_ensures(token_response, (url, room, made), r),
    ensures
        r is Ok <==> made is Some,
        r is Ok ==> r->Ok_0.url == url && r->Ok_0.room == room && r->Ok_0.token == made->0,
        r is Err ==> r->Err_0 == TokenRefusal::TokenGenerationFailed,
{
}

} // verus!
