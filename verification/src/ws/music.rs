//! The music bot: what it is told to do, and what it says that it does.

use vstd::prelude::*;

use crate::clock::UtcTime;
use crate::ident::{uuid_text, Uuid, MUSIC_BOT_ID};
use crate::protocol::{
    Channel, ChatMessageCreated, MessageDto, MusicCommand, MusicCommandEvent, MusicStatus,
    MusicStatusItem, OutboundEnvelope, Payload, StreamPublish,
};
use crate::text::{
    blank, byte_len, is_blank, is_http_url, is_white_space, same_text, spec_is_http_url, utf8_len,
};
use crate::voice::model::RegistryModel;
use crate::voice::registry::VoiceRegistry;
use crate::voice::rows::law_set_music;
use crate::voice::steps::{law_music_step, law_room_opened};
use crate::voice::types::{ChannelId, RoomChange, TrackSource};
use crate::ws::presence::plain_error;

verus! {

/// Is this a command that the bot knows?
pub open spec fn command(s: Seq<char>) -> bool {
    ||| s == "play"@
    ||| s == "pause"@
    ||| s == "resume"@
    ||| s == "skip"@
    ||| s == "stop"@
    ||| s == "queue"@
}

/// Is this a command that the bot knows?
fn is_command(s: &str) -> (r: bool)
    ensures
        r == command(s@),
{
    same_text(s, "play") || same_text(s, "pause") || same_text(s, "resume") || same_text(s, "skip") || same_text(s, "stop") || same_text(s, "queue")
}

/// What a command asks to be played.
pub open spec fn asked_for(data: MusicCommand) -> Seq<char> {
    match data.query {
        Some(q) => q@,
        None => Seq::empty(),
    }
}

/// Why a command is refused, by code and text.
pub open spec fn command_fault(
    m: RegistryModel,
    user_id: Uuid,
    data: MusicCommand,
    reply_channel: Option<Channel>,
    bot_online: bool,
) -> Option<(Seq<char>, Seq<char>)> {
    if !command(data.command@) {
        Some(("validation_error"@, "comando de música desconhecido"@))
    } else if !(m.rooms.contains_key(data.voice_channel_id)
        && m.rooms[data.voice_channel_id].participants.contains_key(user_id)) {
        Some(("forbidden"@, "entre no canal de voz antes de controlar o bot"@))
    } else if data.command@ == "play"@ && blank(asked_for(data)) {
        Some(("validation_error"@, "use /play <link ou nome>"@))
    } else if reply_channel is None {
        Some(("forbidden"@, "canal de resposta indisponível"@))
    } else if reply_channel->0.kind@ != "text"@ {
        Some(("validation_error"@, "as atualizações do bot exigem um canal de texto"@))
    } else if !bot_online {
        Some(
            (
                "service_unavailable"@,
                "o Tupi Música está iniciando; tente novamente em instantes"@,
            ),
        )
    } else {
        None
    }
}

/// What becomes of a command: it goes to the bot, or its sender is told why
/// not. `reply_channel`: the channel for the bot's answers, where the sender
/// sees it.
pub fn on_command(
    registry: &VoiceRegistry,
    user_id: Uuid,
    data: MusicCommand,
    reply_channel: Option<&Channel>,
    bot_online: bool,
) -> (r: Result<OutboundEnvelope, OutboundEnvelope>)
    ensures
        match command_fault(
            registry@,
            user_id,
            data,
            match reply_channel {
                Some(c) => Some(*c),
                None => None,
            },
            bot_online,
        ) {
            Some(fault) => r matches Err(m) && m.is_error(fault.0, fault.1, None),
            None => r matches Ok(m) && m.is_message(
                "music.command"@,
                Payload::MusicCommand(
                    MusicCommandEvent {
                        channel_id: data.channel_id,
                        voice_channel_id: data.voice_channel_id,
                        command: data.command,
                        query: data.query,
                        requested_by: user_id,
                    },
                ),
            ),
        },
{
    if !is_command(data.command.as_str()) {
        return Err(
            OutboundEnvelope::error("validation_error", "comando de música desconhecido", None),
        );
    }
    if !registry.is_participant(data.voice_channel_id, user_id) {
        return Err(
            OutboundEnvelope::error(
                "forbidden",
                "entre no canal de voz antes de controlar o bot",
                None,
            ),
        );
    }
    let nothing_asked: bool = match &data.query {
        Some(q) => is_blank(q.as_str()),
        None => true,
    };
    if same_text(data.command.as_str(), "play") && nothing_asked {
        return Err(OutboundEnvelope::error("validation_error", "use /play <link ou nome>", None));
    }
    match reply_channel {
        Some(channel) => {
            if !same_text(channel.kind.as_str(), "text") {
                return Err(
                    OutboundEnvelope::error(
                        "validation_error",
                        "as atualizações do bot exigem um canal de texto",
                        None,
                    ),
                );
            }
        },
        None => {
            return Err(OutboundEnvelope::error("forbidden", "canal de resposta indisponível", None));
        },
    }
    if !bot_online {
        return Err(
            OutboundEnvelope::error(
                "service_unavailable",
                "o Tupi Música está iniciando; tente novamente em instantes",
                None,
            ),
        );
    }
    Ok(
        OutboundEnvelope::new(
            "music.command",
            Payload::MusicCommand(
                MusicCommandEvent {
                    channel_id: data.channel_id,
                    voice_channel_id: data.voice_channel_id,
                    command: data.command,
                    query: data.query,
                    requested_by: user_id,
                },
            ),
        ),
    )
}

/// Is this something that the bot can be doing?
pub open spec fn status_kind(s: Seq<char>) -> bool {
    ||| s == "loading"@
    ||| s == "queued"@
    ||| s == "playing"@
    ||| s == "paused"@
    ||| s == "resumed"@
    ||| s == "skipped"@
    ||| s == "stopped"@
    ||| s == "finished"@
    ||| s == "disconnected"@
    ||| s == "queue"@
    ||| s == "error"@
}

/// Is this something that the bot can be doing?
fn is_status_kind(s: &str) -> (r: bool)
    ensures
        r == status_kind(s@),
{
    same_text(s, "loading") || same_text(s, "queued") || same_text(s, "playing") || same_text(s, "paused") || same_text(s, "resumed") || same_text(s, "skipped") || same_text(s, "stopped") || same_text(s, "finished") || same_text(s, "disconnected") || same_text(s, "queue") || same_text(s, "error")
}

/// Is this where a request can come from?
pub open spec fn origin(s: Seq<char>) -> bool {
    ||| s == "text"@
    ||| s == "spotify"@
    ||| s == "youtube"@
}

/// Is this where a request can come from?
fn is_origin(s: &str) -> (r: bool)
    ensures
        r == origin(s@),
{
    same_text(s, "text") || same_text(s, "spotify") || same_text(s, "youtube")
}

/// Is this where a song can be had?
pub open spec fn provider(s: Seq<char>) -> bool {
    ||| s == "cache"@
    ||| s == "library"@
    ||| s == "soundcloud"@
    ||| s == "audius"@
    ||| s == "youtube"@
}

/// Is this where a song can be had?
fn is_provider(s: &str) -> (r: bool)
    ensures
        r == provider(s@),
{
    same_text(s, "cache") || same_text(s, "library") || same_text(s, "soundcloud") || same_text(s, "audius") || same_text(s, "youtube")
}

/// Is this a kind of collection?
pub open spec fn collection(s: Seq<char>) -> bool {
    ||| s == "album"@
    ||| s == "playlist"@
}

/// Is this a kind of collection?
fn is_collection(s: &str) -> (r: bool)
    ensures
        r == collection(s@),
{
    same_text(s, "album") || same_text(s, "playlist")
}

/// Is there no text, or one of at most `max` bytes?
pub open spec fn fits(s: Option<String>, max: nat) -> bool {
    s matches Some(t) ==> utf8_len(t@) <= max
}

/// Is there no text, or one of at most `max` bytes?
fn does_fit(s: &Option<String>, max: usize) -> (r: bool)
    ensures
        r == fits(*s, max as nat),
{
    match s {
        Some(t) => byte_len(t.as_str()) <= max,
        None => true,
    }
}

/// Is there no address, or a web address of at most 2000 bytes?
pub open spec fn fitting_url(s: Option<String>) -> bool {
    s matches Some(t) ==> utf8_len(t@) <= 2000 && spec_is_http_url(t@)
}

/// Is there no address, or a web address of at most 2000 bytes?
fn is_fitting_url(s: &Option<String>) -> (r: bool)
    ensures
        r == fitting_url(*s),
{
    match s {
        Some(t) => byte_len(t.as_str()) <= 2000 && is_http_url(t.as_str()),
        None => true,
    }
}

/// Can this be a queued song?
pub open spec fn fitting_item(item: MusicStatusItem) -> bool {
    &&& item.title@.len() > 0
    &&& utf8_len(item.title@) <= 500
    &&& fits(item.artist, 300)
}

/// Can this be what the bot is doing?
pub open spec fn fitting_status(data: MusicStatus) -> bool {
    &&& status_kind(data.kind@)
    &&& data.origin matches Some(t) ==> origin(t@)
    &&& data.provider matches Some(t) ==> provider(t@)
    &&& fits(data.title, 500)
    &&& fits(data.artist, 300)
    &&& fits(data.detail, 2000)
    &&& fitting_url(data.image_url)
    &&& fitting_url(data.source_url)
    &&& fits(data.collection_name, 500)
    &&& data.collection_kind matches Some(t) ==> collection(t@)
    &&& data.items@.len() <= 10
    &&& forall|i: int| 0 <= i < data.items@.len() ==> fitting_item(#[trigger] data.items@[i])
}

/// Can these be queued songs?
fn are_fitting_items(items: &Vec<MusicStatusItem>) -> (r: bool)
    ensures
        r == forall|i: int| 0 <= i < items@.len() ==> fitting_item(#[trigger] items@[i]),
{
    for i in 0..items.len()
        invariant
            forall|j: int| 0 <= j < i ==> fitting_item(#[trigger] items@[j]),
    {
        let item: &MusicStatusItem = &items[i];
        let fit: bool = !item.title.as_str().is_empty() && byte_len(item.title.as_str()) <= 500
            && does_fit(&item.artist, 300);
        if !fit {
            assert(!fitting_item(items@[i as int]));
            return false;
        }
    }
    true
}

/// Can this be what the bot is doing?
pub fn is_fitting_status(data: &MusicStatus) -> (r: bool)
    ensures
        r == fitting_status(*data),
{
    let origin_known: bool = match &data.origin {
        Some(t) => is_origin(t.as_str()),
        None => true,
    };
    let provider_known: bool = match &data.provider {
        Some(t) => is_provider(t.as_str()),
        None => true,
    };
    let collection_known: bool = match &data.collection_kind {
        Some(t) => is_collection(t.as_str()),
        None => true,
    };
    is_status_kind(data.kind.as_str()) && origin_known && provider_known && does_fit(&data.title, 500)
        && does_fit(&data.artist, 300) && does_fit(&data.detail, 2000) && is_fitting_url(
        &data.image_url,
    ) && is_fitting_url(&data.source_url) && does_fit(&data.collection_name, 500) && collection_known
        && data.items.len() <= 10 && are_fitting_items(&data.items)
}

/// Why a status is refused, by code and text.
pub open spec fn status_fault(user_id: Uuid, data: MusicStatus, channel: Option<Channel>) -> Option<
    (Seq<char>, Seq<char>),
> {
    if user_id != MUSIC_BOT_ID {
        Some(("forbidden"@, "somente o bot pode publicar estados de música"@))
    } else if !fitting_status(data) {
        Some(("validation_error"@, "estado de música inválido"@))
    } else if channel is None || channel->0.kind@ != "text"@ {
        Some(("not_found"@, "canal de texto não encontrado"@))
    } else {
        None
    }
}

/// The refusal of a status that cannot be shown. `channel`: the one that it
/// names, where there is one.
pub fn check_status(user_id: Uuid, data: &MusicStatus, channel: Option<&Channel>) -> (r: Option<
    OutboundEnvelope,
>)
    ensures
        match status_fault(
            user_id,
            *data,
            match channel {
                Some(c) => Some(*c),
                None => None,
            },
        ) {
            Some(fault) => r matches Some(m) && m.is_error(fault.0, fault.1, None),
            None => r is None,
        },
{
    if user_id != MUSIC_BOT_ID {
        return Some(
            OutboundEnvelope::error(
                "forbidden",
                "somente o bot pode publicar estados de música",
                None,
            ),
        );
    }
    if !is_fitting_status(data) {
        return Some(OutboundEnvelope::error("validation_error", "estado de música inválido", None));
    }
    let text_channel: bool = match channel {
        Some(c) => same_text(c.kind.as_str(), "text"),
        None => false,
    };
    if !text_channel {
        return Some(OutboundEnvelope::error("not_found", "canal de texto não encontrado", None));
    }
    None
}

/// The card that tells a channel what the bot is doing, once it is stored as
/// a message. It is shown in place of a text, so the text is empty.
pub fn status_message(channel_id: Uuid, card: MusicStatus, message_id: Uuid, created_at: UtcTime) -> (r:
    OutboundEnvelope)
    ensures
        r.data is ChatMessageCreated,
        r.is_message("chat.message.created"@, r.data),
        ({
            let c = r.data->ChatMessageCreated_0;
            &&& c.message.id == message_id
            &&& c.message.channel_id == channel_id
            &&& c.message.author_id == MUSIC_BOT_ID
            &&& c.message.content@.len() == 0
            &&& c.message.created_at == created_at
            &&& c.message.edited_at is None
            &&& c.message.attachment_ids@.len() == 0
            &&& c.message.attachments@.len() == 0
            &&& c.message.music_status == Some(card)
            &&& c.in_reply_to is None
        }),
{
    proof {
        reveal_strlit("");
    }
    OutboundEnvelope::new(
        "chat.message.created",
        Payload::ChatMessageCreated(
            ChatMessageCreated {
                message: MessageDto {
                    id: message_id,
                    channel_id,
                    author_id: MUSIC_BOT_ID,
                    content: "".to_string(),
                    created_at,
                    edited_at: None,
                    attachment_ids: Vec::new(),
                    attachments: Vec::new(),
                    music_status: Some(card),
                },
                in_reply_to: None,
            },
        ),
    )
}

/// Why a call refuses a stream.
#[derive(Debug, Clone, Copy, PartialEq, Eq, Structural)]
pub enum CallOpError {
    NotInCall,
    StreamAlreadyPublished,
    NotStreamOwner,
    Other,
}

/// The refusal of a stream that is not the bot's music.
pub fn check_stream(user_id: Uuid, data: &StreamPublish) -> (r: Option<OutboundEnvelope>)
    ensures
        r is None <==> user_id == MUSIC_BOT_ID && data.kind@ == "music"@,
        r matches Some(m) ==> m.is_error(
            "validation_error"@,
            "only the music bot may publish this stream"@,
            None,
        ),
{
    if user_id != MUSIC_BOT_ID || !same_text(data.kind.as_str(), "music") {
        Some(
            OutboundEnvelope::error(
                "validation_error",
                "only the music bot may publish this stream",
                None,
            ),
        )
    } else {
        None
    }
}

/// What the publisher is told of a stream that the call refuses, by code and
/// text.
pub open spec fn publish_fault(e: CallOpError) -> (Seq<char>, Seq<char>) {
    match e {
        CallOpError::NotInCall => ("forbidden"@, "join the call before publishing"@),
        CallOpError::StreamAlreadyPublished => (
            "conflict"@,
            "music is already playing in this channel"@,
        ),
        _ => ("validation_error"@, "unable to publish music"@),
    }
}

/// What follows a stream that the call took or refused: the music row is
/// shown, or the publisher is told why not.
pub fn on_stream_published(registry: &mut VoiceRegistry, channel_id: ChannelId, result: Result<
    (),
    CallOpError,
>) -> (r: Result<RoomChange, OutboundEnvelope>)
    requires
        old(registry).wf(),
        old(registry)@.can_count(channel_id),
    ensures
        final(registry).wf(),
        final(registry).clock() == old(registry).clock(),
        match result {
            Ok(_) => r matches Ok(change) && (final(registry)@, change@) == old(registry)@.music_set(
                channel_id,
                true,
            ),
            Err(e) => {
                &&& r matches Err(m) && m.is_error(publish_fault(e).0, publish_fault(e).1, None)
                &&& final(registry)@ == old(registry)@
            },
        },
{
    match result {
        Ok(()) => Ok(registry.set_music_row(channel_id, true)),
        Err(CallOpError::NotInCall) => Err(
            OutboundEnvelope::error("forbidden", "join the call before publishing", None),
        ),
        Err(CallOpError::StreamAlreadyPublished) => Err(
            OutboundEnvelope::error("conflict", "music is already playing in this channel", None),
        ),
        Err(_) => Err(OutboundEnvelope::error("validation_error", "unable to publish music", None)),
    }
}

/// What follows a stream that the call ended, or would not end: the music row
/// goes, or the sender is told why not.
pub fn on_stream_unpublished(registry: &mut VoiceRegistry, channel_id: ChannelId, result: Result<
    (),
    CallOpError,
>) -> (r: Result<RoomChange, OutboundEnvelope>)
    requires
        old(registry).wf(),
        old(registry)@.can_count(channel_id),
    ensures
        final(registry).wf(),
        final(registry).clock() == old(registry).clock(),
        match result {
            Ok(_) => r matches Ok(change) && (final(registry)@, change@) == old(registry)@.music_set(
                channel_id,
                false,
            ),
            Err(e) => {
                &&& r matches Err(m) && if e == CallOpError::NotStreamOwner {
                    m.is_error("forbidden"@, "you do not own this stream"@, None)
                } else {
                    m.is_error("not_found"@, "music stream not found"@, None)
                }
                &&& final(registry)@ == old(registry)@
            },
        },
{
    match result {
        Ok(()) => Ok(registry.set_music_row(channel_id, false)),
        Err(CallOpError::NotStreamOwner) => Err(
            OutboundEnvelope::error("forbidden", "you do not own this stream", None),
        ),
        Err(_) => Err(OutboundEnvelope::error("not_found", "music stream not found", None)),
    }
}

/// A command goes to the bot if and only if it is one of six that the bot knows,
/// its sender is in the voice channel that it is for, a command to play says
/// what, the answers go to a text channel that the sender sees, and the bot is
/// online.
pub proof fn law_command_allowed(
    m: RegistryModel,
    user_id: Uuid,
    data: MusicCommand,
    reply_channel: Option<Channel>,
    bot_online: bool,
)
    ensures
        command_fault(m, user_id, data, reply_channel, bot_online) is None <==> {
            let s = data.command@;
            &&& s == "play"@ || s == "pause"@ || s == "resume"@ || s == "skip"@ || s == "stop"@ || s
                == "queue"@
            &&& m.rooms.contains_key(data.voice_channel_id)
            &&& m.rooms[data.voice_channel_id].participants.contains_key(user_id)
            &&& s == "play"@ ==> data.query is Some && exists|i: int|
                0 <= i < data.query->0@.len() && !is_white_space(#[trigger] data.query->0@[i])
            &&& reply_channel is Some && reply_channel->0.kind@ == "text"@
            &&& bot_online
        },
{
}

/// Why a command is refused: the bot does not know it; or its sender is not in
/// the voice channel; or it does not say what to play; or there is no channel to
/// answer in, or not a text channel; or the bot is not online. The first that
/// holds is told.
pub proof fn law_command_refused(
    m: RegistryModel,
    user_id: Uuid,
    data: MusicCommand,
    reply_channel: Option<Channel>,
    bot_online: bool,
)
    ensures
        ({
            let fault = command_fault(m, user_id, data, reply_channel, bot_online);
            let s = data.command@;
            let known = s == "play"@ || s == "pause"@ || s == "resume"@ || s == "skip"@ || s == "stop"@ || s
                == "queue"@;
            let there = m.rooms.contains_key(data.voice_channel_id)
                && m.rooms[data.voice_channel_id].participants.contains_key(user_id);
            let mute = s == "play"@ && (data.query is None || forall|i: int|
                0 <= i < data.query->0@.len() ==> is_white_space(#[trigger] data.query->0@[i]));
            let heard = known && there && !mute;
            &&& !known ==> fault == Some(("validation_error"@, "comando de música desconhecido"@))
            &&& known && !there ==> fault == Some(
                ("forbidden"@, "entre no canal de voz antes de controlar o bot"@),
            )
            &&& known && there && mute ==> fault == Some(("validation_error"@, "use /play <link ou nome>"@))
            &&& heard && reply_channel is None ==> fault == Some(
                ("forbidden"@, "canal de resposta indisponível"@),
            )
            &&& heard && reply_channel is Some && reply_channel->0.kind@ != "text"@ ==> fault == Some(
                ("validation_error"@, "as atualizações do bot exigem um canal de texto"@),
            )
            &&& heard && reply_channel is Some && reply_channel->0.kind@ == "text"@ && !bot_online ==> fault
                == Some(
                (
                    "service_unavailable"@,
                    "o Tupi Música está iniciando; tente novamente em instantes"@,
                ),
            )
        }),
{
    reveal_strlit("play");
}

/// Is there no text, or one of at most `max` bytes?
pub open spec fn at_most(s: Option<String>, max: nat) -> bool {
    s is Some ==> utf8_len(s->0@) <= max
}

/// What the bot says that it does can be shown if and only if it is one of
/// eleven things, its origin, provider and kind of collection are known where
/// they are given, its texts and addresses are not too long, the addresses are
/// web addresses, and it lists at most ten songs, each with a title, and none
/// with too long a title or artist.
pub proof fn law_status_fits(data: MusicStatus)
    ensures
        fitting_status(data) <==> {
            let k = data.kind@;
            &&& k == "loading"@ || k == "queued"@ || k == "playing"@ || k == "paused"@ || k == "resumed"@ || k
                == "skipped"@ || k == "stopped"@ || k == "finished"@ || k == "disconnected"@ || k == "queue"@
                || k == "error"@
            &&& data.origin is Some ==> data.origin->0@ == "text"@ || data.origin->0@ == "spotify"@
                || data.origin->0@ == "youtube"@
            &&& data.provider is Some ==> data.provider->0@ == "cache"@ || data.provider->0@ == "library"@
                || data.provider->0@ == "soundcloud"@ || data.provider->0@ == "audius"@ || data.provider->0@
                == "youtube"@
            &&& data.collection_kind is Some ==> data.collection_kind->0@ == "album"@
                || data.collection_kind->0@ == "playlist"@
            &&& at_most(data.title, 500)
            &&& at_most(data.artist, 300)
            &&& at_most(data.detail, 2000)
            &&& at_most(data.collection_name, 500)
            &&& at_most(data.image_url, 2000)
            &&& at_most(data.source_url, 2000)
            &&& data.image_url is Some ==> spec_is_http_url(data.image_url->0@)
            &&& data.source_url is Some ==> spec_is_http_url(data.source_url->0@)
            &&& data.items@.len() <= 10
            &&& forall|i: int|
                0 <= i < data.items@.len() ==> {
                    &&& 0 < (#[trigger] data.items@[i]).title@.len()
                    &&& utf8_len(data.items@[i].title@) <= 500
                    &&& at_most(data.items@[i].artist, 300)
                }
        },
{
    assert forall|i: int| 0 <= i < data.items@.len() implies (fitting_item(#[trigger] data.items@[i]) <==> {
        &&& 0 < data.items@[i].title@.len()
        &&& utf8_len(data.items@[i].title@) <= 500
        &&& at_most(data.items@[i].artist, 300)
    }) by {}
}

/// A status is shown if and only if the music bot gives it, it can be shown, and
/// it is for a text channel. Otherwise the first that fails is told.
pub proof fn law_status_refused(user_id: Uuid, data: MusicStatus, channel: Option<Channel>)
    ensures
        ({
            let fault = status_fault(user_id, data, channel);
            let text = channel is Some && channel->0.kind@ == "text"@;
            &&& fault is None <==> user_id == 1 && fitting_status(data) && text
            &&& user_id != 1 ==> fault == Some(
                ("forbidden"@, "somente o bot pode publicar estados de música"@),
            )
            &&& user_id == 1 && !fitting_status(data) ==> fault == Some(
                ("validation_error"@, "estado de música inválido"@),
            )
            &&& user_id == 1 && fitting_status(data) && !text ==> fault == Some(
                ("not_found"@, "canal de texto não encontrado"@),
            )
        }),
{
}

/// What the publisher is told where the call refuses its stream.
pub proof fn law_publish_refused(e: CallOpError)
    ensures
        e == CallOpError::NotInCall ==> publish_fault(e) == ("forbidden"@, "join the call before publishing"@),
        e == CallOpError::StreamAlreadyPublished ==> publish_fault(e) == (
            "conflict"@,
            "music is already playing in this channel"@,
        ),
        e == CallOpError::NotStreamOwner || e == CallOpError::Other ==> publish_fault(e) == (
            "validation_error"@,
            "unable to publish music"@,
        ),
{
}

/// A command that is not refused goes to the bot as it was given, with who gave
/// it.
pub proof fn law_command_passed_on(
    registry: &VoiceRegistry,
    user_id: Uuid,
    data: MusicCommand,
    reply_channel: Option<&Channel>,
    bot_online: bool,
    r: Result<OutboundEnvelope, OutboundEnvelope>,
)
    requires
        call_ensures(on_command, (registry, user_id, data, reply_channel, bot_online), r),
    ensures
        ({
            let m = registry@;
            let s = data.command@;
            let known = s == "play"@ || s == "pause"@ || s == "resume"@ || s == "skip"@ || s == "stop"@ || s
                == "queue"@;
            let here = m.rooms.contains_key(data.voice_channel_id)
                && m.rooms[data.voice_channel_id].participants.contains_key(user_id);
            &&& r is Ok <==> {
                &&& known && here && bot_online
                &&& s == "play"@ ==> data.query is Some && exists|i: int|
                    0 <= i < data.query->0@.len() && !is_white_space(#[trigger] data.query->0@[i])
                &&& reply_channel is Some && reply_channel->0.kind@ == "text"@
            }
            &&& !known ==> plain_error(r->Err_0, "validation_error"@, "comando de música desconhecido"@)
            &&& known && !here ==> plain_error(
                r->Err_0,
                "forbidden"@,
                "entre no canal de voz antes de controlar o bot"@,
            )
            &&& r is Ok ==> {
                let c = r->Ok_0.data->MusicCommand_0;
                &&& r->Ok_0.v == 1 && r->Ok_0.op@ == "music.command"@ && r->Ok_0.data is MusicCommand
                &&& c.channel_id == data.channel_id
                &&& c.voice_channel_id == data.voice_channel_id
                &&& c.command == data.command
                &&& c.query == data.query
                &&& c.requested_by == user_id
            }
        }),
{
    let c: Option<Channel> = match reply_channel {
        Some(c) => Some(*c),
        None => None,
    };
    law_command_allowed(registry@, user_id, data, c, bot_online);
    law_command_refused(registry@, user_id, data, c, bot_online);
}

/// A status is accepted if and only if the music bot gives it, it can be shown,
/// and it is for a text channel.
pub proof fn law_status_checked(
    user_id: Uuid,
    data: &MusicStatus,
    channel: Option<&Channel>,
    r: Option<OutboundEnvelope>,
)
    requires
        call_ensures(check_status, (user_id, data, channel), r),
    ensures
        ({
            let text = channel is Some && channel->0.kind@ == "text"@;
            &&& r is None <==> user_id == 1 && fitting_status(*data) && text
            &&& user_id != 1 ==> plain_error(
                r->0,
                "forbidden"@,
                "somente o bot pode publicar estados de música"@,
            )
            &&& user_id == 1 && !fitting_status(*data) ==> plain_error(
                r->0,
                "validation_error"@,
                "estado de música inválido"@,
            )
            &&& user_id == 1 && fitting_status(*data) && !text ==> plain_error(
                r->0,
                "not_found"@,
                "canal de texto não encontrado"@,
            )
        }),
{
    let c: Option<Channel> = match channel {
        Some(c) => Some(*c),
        None => None,
    };
    law_status_refused(user_id, *data, c);
}

/// A card is a message of the bot with no text, that carries what the bot is
/// doing.
pub proof fn law_card_told(
    channel_id: Uuid,
    card: MusicStatus,
    message_id: Uuid,
    created_at: UtcTime,
    r: OutboundEnvelope,
)
    requires
        call_ensures(status_message, (channel_id, card, message_id, created_at), r),
    ensures
        r.v == 1,
        r.op@ == "chat.message.created"@,
        r.data is ChatMessageCreated,
        ({
            let c = r.data->ChatMessageCreated_0;
            &&& c.message.id == message_id
            &&& c.message.channel_id == channel_id
            &&& c.message.author_id == 1
            &&& c.message.content@.len() == 0
            &&& c.message.created_at == created_at
            &&& c.message.edited_at is None
            &&& c.message.attachment_ids@.len() == 0
            &&& c.message.attachments@.len() == 0
            &&& c.message.music_status == Some(card)
            &&& c.in_reply_to is None
        }),
{
}

/// Only the music bot publishes a stream, and only music.
pub proof fn law_stream_checked(user_id: Uuid, data: &StreamPublish, r: Option<OutboundEnvelope>)
    requires
        call_ensures(check_stream, (user_id, data), r),
    ensures
        r is None <==> user_id == 1 && data.kind@ == "music"@,
        r is Some ==> plain_error(
            r->0,
            "validation_error"@,
            "only the music bot may publish this stream"@,
        ),
{
}

/// A stream that the call took shows the music row, and one that it ended takes
/// the row away; where the call refuses, nothing changes, and the sender is told
/// why.
pub proof fn law_streams_shown(
    up: &mut VoiceRegistry,
    down: &mut VoiceRegistry,
    channel_id: ChannelId,
    result: Result<(), CallOpError>,
    a: Result<RoomChange, OutboundEnvelope>,
    b: Result<RoomChange, OutboundEnvelope>,
)
    requires
        call_ensures(on_stream_published, (up, channel_id, result), a),
        call_ensures(on_stream_unpublished, (down, channel_id, result), b),
    ensures
        ({
            let sid = "music:"@ + uuid_text(channel_id);
            let (m, n) = (final(up)@, final(down)@);
            &&& a is Ok <==> result is Ok
            &&& b is Ok <==> result is Ok
            &&& result is Ok ==> m.rooms.contains_key(channel_id) && m.rooms[channel_id].tracks.contains_key(
                sid,
            )
            &&& result is Ok && !old(up)@.opened(channel_id).tracks.contains_key(sid)
                ==> m.rooms[channel_id].tracks[sid].source == TrackSource::Music
                && m.rooms[channel_id].tracks[sid].owner == 1
            &&& result is Ok ==> !(n.rooms.contains_key(channel_id)
                && n.rooms[channel_id].tracks.contains_key(sid))
            &&& result is Err ==> m == old(up)@ && n == old(down)@
            &&& result matches Err(e) ==> {
                &&& e == CallOpError::NotInCall ==> plain_error(
                    a->Err_0,
                    "forbidden"@,
                    "join the call before publishing"@,
                )
                &&& e == CallOpError::StreamAlreadyPublished ==> plain_error(
                    a->Err_0,
                    "conflict"@,
                    "music is already playing in this channel"@,
                )
                &&& e == CallOpError::NotStreamOwner ==> plain_error(
                    b->Err_0,
                    "forbidden"@,
                    "you do not own this stream"@,
                )
                &&& e != CallOpError::NotStreamOwner ==> plain_error(
                    b->Err_0,
                    "not_found"@,
                    "music stream not found"@,
                )
            }
        }),
{
    let sid = "music:"@ + uuid_text(channel_id);
    law_music_step(old(up)@, channel_id, true);
    law_set_music(old(up)@.opened(channel_id), channel_id, true);
    law_music_step(old(down)@, channel_id, false);
    law_set_music(old(down)@.opened(channel_id), channel_id, false);
    law_room_opened(old(down)@, channel_id, 0, sid);
    if result is Err {
        law_publish_refused(result->Err_0);
    }
}

} // verus!
