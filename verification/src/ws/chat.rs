//! Sending, editing and deleting messages.

use vstd::prelude::*;

use crate::clock::UtcTime;
use crate::ident::{copy_ids, uuid_text, uuid_to_string, Uuid};
use crate::protocol::{
    Channel, ChatMessageCreate, ChatMessageCreated, ChatMessageDelete, ChatMessageDeleted,
    ChatMessageEdit, ChatMessageEdited, MessageAttachment, MessageDto, OutboundEnvelope, Payload,
};
use crate::text::{
    blank, byte_len, copy_optional, is_blank, is_white_space, joined_text, optional_text, same_text,
    utf8_len,
};

verus! {

/// How many bytes a message may have.
pub const MAX_MESSAGE_BYTES: usize = 4000;

/// How many attachments a message may have.
pub const MAX_ATTACHMENTS: usize = 10;

/// A message as it was stored.
#[derive(Debug)]
pub struct MessageRow {
    pub id: Uuid,
    pub channel_id: Uuid,
    pub author_id: Uuid,
    pub content: String,
    pub created_at: UtcTime,
    pub edited_at: Option<UtcTime>,
    /// Was it stored now? Not if the request is a retry of one that was
    /// stored before.
    pub is_new_insert: bool,
}

/// An attachment as it is stored.
#[derive(Debug)]
pub struct AttachmentRow {
    pub id: Uuid,
    pub filename: String,
    pub content_type: String,
    pub size_bytes: i64,
}

/// Why a message cannot be sent, by code and text, as far as that shows
/// before it is stored.
pub open spec fn create_fault(data: ChatMessageCreate, channel: Option<Channel>) -> Option<
    (Seq<char>, Seq<char>),
> {
    if channel is None {
        Some(("forbidden"@, "not a member of this channel's community"@))
    } else if channel->0.kind@ != "text"@ {
        Some(("validation_error"@, "messages can only be sent to text channels"@))
    } else if (blank(data.content@) && data.attachment_ids@.len() == 0) || utf8_len(data.content@)
        > MAX_MESSAGE_BYTES {
        Some(("validation_error"@, "message must be 1..=4000 chars or contain attachments"@))
    } else if data.attachment_ids@.len() > MAX_ATTACHMENTS || !data.attachment_ids@.no_duplicates() {
        Some(("validation_error"@, "attachments must contain at most 10 unique ids"@))
    } else {
        None
    }
}

/// Is no identifier in the list twice?
pub fn all_different(ids: &Vec<Uuid>) -> (r: bool)
    ensures
        r == ids@.no_duplicates(),
{
    for i in 0..ids.len()
        invariant
            forall|a: int, b: int| 0 <= a < b < i ==> ids@[a] != ids@[b],
    {
        for j in 0..i
            invariant
                i < ids@.len(),
                forall|a: int| 0 <= a < j ==> ids@[a] != ids@[i as int],
        {
            if ids[j] == ids[i] {
                return false;
            }
        }
    }
    true
}

/// A refusal, in answer to the request where it has a name.
pub fn refusal(code: &str, message: &str, req_id: &Option<String>) -> (r: OutboundEnvelope)
    ensures
        r.is_error(code@, message@, optional_text(*req_id)),
{
    match req_id {
        Some(id) => OutboundEnvelope::error(code, message, Some(id.as_str())),
        None => OutboundEnvelope::error(code, message, None),
    }
}

/// The refusal of a message that cannot be sent.
pub fn check_create(data: &ChatMessageCreate, channel: Option<&Channel>) -> (r: Option<OutboundEnvelope>)
    ensures
        match create_fault(
            *data,
            match channel {
                Some(c) => Some(*c),
                None => None,
            },
        ) {
            Some(fault) => r matches Some(m) && m.is_error(fault.0, fault.1, optional_text(data.req_id)),
            None => r is None,
        },
{
    match channel {
        Some(c) => {
            if !same_text(c.kind.as_str(), "text") {
                Some(
                    refusal(
                        "validation_error",
                        "messages can only be sent to text channels",
                        &data.req_id,
                    ),
                )
            } else if (is_blank(data.content.as_str()) && data.attachment_ids.len() == 0) || byte_len(
                data.content.as_str(),
            ) > MAX_MESSAGE_BYTES {
                Some(
                    refusal(
                        "validation_error",
                        "message must be 1..=4000 chars or contain attachments",
                        &data.req_id,
                    ),
                )
            } else if data.attachment_ids.len() > MAX_ATTACHMENTS || !all_different(&data.attachment_ids) {
                Some(
                    refusal(
                        "validation_error",
                        "attachments must contain at most 10 unique ids",
                        &data.req_id,
                    ),
                )
            } else {
                None
            }
        },
        None => Some(
            refusal("forbidden", "not a member of this channel's community", &data.req_id),
        ),
    }
}

/// Where an attachment is to be had.
pub open spec fn attachment_url(id: Uuid) -> Seq<char> {
    "/api/attachments/"@ + uuid_text(id)
}

/// Does `shown` show the attachments `rows`?
pub open spec fn shows_attachments(shown: Seq<MessageAttachment>, rows: Seq<AttachmentRow>) -> bool {
    &&& shown.len() == rows.len()
    &&& forall|i: int|
        0 <= i < rows.len() ==> {
            &&& (#[trigger] shown[i]).id == rows[i].id
            &&& shown[i].filename@ == rows[i].filename@
            &&& shown[i].content_type@ == rows[i].content_type@
            &&& shown[i].size_bytes == rows[i].size_bytes
            &&& shown[i].url@ == attachment_url(rows[i].id)
        }
}

/// The attachments as clients see them.
fn show_attachments(rows: &Vec<AttachmentRow>) -> (r: Vec<MessageAttachment>)
    ensures
        shows_attachments(r@, rows@),
{
    let mut out: Vec<MessageAttachment> = Vec::new();
    for i in 0..rows.len()
        invariant
            shows_attachments(out@, rows@.take(i as int)),
    {
        let id: String = uuid_to_string(rows[i].id);
        let ghost before = out@;
        out.push(
            MessageAttachment {
                id: rows[i].id,
                filename: rows[i].filename.clone(),
                content_type: rows[i].content_type.clone(),
                size_bytes: rows[i].size_bytes,
                url: joined_text("/api/attachments/", id.as_str()),
            },
        );
        proof {
            let more = rows@.take(i + 1);
            assert forall|j: int| 0 <= j < more.len() implies {
                &&& (#[trigger] out@[j]).id == more[j].id
                &&& out@[j].filename@ == more[j].filename@
                &&& out@[j].content_type@ == more[j].content_type@
                &&& out@[j].size_bytes == more[j].size_bytes
                &&& out@[j].url@ == attachment_url(more[j].id)
            } by {
                if j < i {
                    assert(out@[j] == before[j]);
                    assert(rows@.take(i as int)[j] == more[j]);
                }
            }
        }
    }
    assert(rows@.take(rows@.len() as int) =~= rows@);
    out
}

/// Does the message `m` tell of the stored message `row`?
pub open spec fn tells_created(
    m: OutboundEnvelope,
    row: MessageRow,
    data: ChatMessageCreate,
    attachments: Seq<AttachmentRow>,
) -> bool {
    &&& m.data is ChatMessageCreated
    &&& m.is_message("chat.message.created"@, m.data)
    &&& {
        let c = m.data->ChatMessageCreated_0;
        &&& c.message.id == row.id
        &&& c.message.channel_id == row.channel_id
        &&& c.message.author_id == row.author_id
        &&& c.message.content@ == row.content@
        &&& c.message.created_at == row.created_at
        &&& c.message.edited_at == row.edited_at
        &&& c.message.attachment_ids@ == data.attachment_ids@
        &&& shows_attachments(c.message.attachments@, attachments)
        &&& c.message.music_status is None
        &&& optional_text(c.in_reply_to) == optional_text(data.req_id)
    }
}

/// The message that tells of a stored message.
fn created_message(row: &MessageRow, data: &ChatMessageCreate, attachments: &Vec<AttachmentRow>) -> (r:
    OutboundEnvelope)
    ensures
        tells_created(r, *row, *data, attachments@),
{
    OutboundEnvelope::new(
        "chat.message.created",
        Payload::ChatMessageCreated(
            ChatMessageCreated {
                message: MessageDto {
                    id: row.id,
                    channel_id: row.channel_id,
                    author_id: row.author_id,
                    content: row.content.clone(),
                    created_at: row.created_at,
                    edited_at: row.edited_at,
                    attachment_ids: copy_ids(&data.attachment_ids),
                    attachments: show_attachments(attachments),
                    music_status: None,
                },
                in_reply_to: copy_optional(&data.req_id),
            },
        ),
    )
}

/// A message on its way into the store.
#[derive(Debug)]
pub struct Sending {
    pub data: ChatMessageCreate,
    pub community_id: Uuid,
    pub stage: Stage,
}

/// How far it has come.
#[derive(Debug)]
pub enum Stage {
    /// The transaction is to be opened.
    Opening,
    /// The row is to be stored.
    Storing,
    /// The attachments are to be given to the new message.
    Associating(MessageRow),
    /// The attachments of the new message are to be read.
    Reading(MessageRow),
    /// The transaction is to be committed.
    Committing(MessageRow, Vec<AttachmentRow>),
    /// The attachments of the message that was stored before are to be read.
    Rereading(MessageRow),
    Done,
}

/// What came of the last thing to do.
#[derive(Debug)]
pub enum StoreEvent {
    Opened(bool),
    /// The row, or nothing where it could not be stored.
    Stored(Option<MessageRow>),
    /// How many attachments were given, or nothing where that failed.
    Associated(Option<u64>),
    /// The attachments; none where they could not be read.
    Read(Vec<AttachmentRow>),
    Committed(bool),
}

/// What is to be done next.
#[derive(Debug)]
pub enum StoreAction {
    Store,
    Associate { message_id: Uuid },
    Read,
    /// Roll back, then read the attachments.
    RollBackAndRead,
    Commit,
    /// Tell the sender, and nobody else.
    Answer(OutboundEnvelope),
    /// Roll back, then tell the sender.
    RollBackAndAnswer(OutboundEnvelope),
    /// Tell the community, and look up the links in the message.
    Announce { community_id: Uuid, message: OutboundEnvelope, row: MessageRow },
    /// What came does not belong here: nothing.
    Ignore,
}

/// Is this the answer to a message that could not be stored?
pub open spec fn is_failure(m: OutboundEnvelope, data: ChatMessageCreate) -> bool {
    m.is_error("internal_error"@, "failed to send message"@, optional_text(data.req_id))
}

impl Sending {
    /// A row that is given attachments or committed is new; one that is read
    /// again was stored before.
    pub open spec fn wf(&self) -> bool {
        match self.stage {
            Stage::Associating(row) => row.is_new_insert,
            Stage::Reading(row) => row.is_new_insert,
            Stage::Committing(row, _) => row.is_new_insert,
            Stage::Rereading(row) => !row.is_new_insert,
            _ => true,
        }
    }

    /// A message that was found fit to be sent.
    pub fn start(data: ChatMessageCreate, community_id: Uuid) -> (r: Sending)
        ensures
            r.wf(),
            r.data == data,
            r.community_id == community_id,
            r.stage is Opening,
    {
        Sending { data, community_id, stage: Stage::Opening }
    }

    /// What follows `event` at this stage.
    pub open spec fn follows(self, event: StoreEvent, next: Stage, action: StoreAction) -> bool {
        match (self.stage, event) {
            (Stage::Opening, StoreEvent::Opened(opened)) => if opened {
                next is Storing && action is Store
            } else {
                next is Done && (action matches StoreAction::Answer(m) && is_failure(m, self.data))
            },
            (Stage::Storing, StoreEvent::Stored(None)) => {
                next is Done && (action matches StoreAction::Answer(m) && is_failure(m, self.data))
            },
            (Stage::Storing, StoreEvent::Stored(Some(row))) => if row.is_new_insert {
                if self.data.attachment_ids@.len() == 0 {
                    &&& next matches Stage::Committing(r, attachments) && r == row && attachments@.len() == 0
                    &&& action is Commit
                } else {
                    next == Stage::Associating(row) && action == (StoreAction::Associate {
                        message_id: row.id,
                    })
                }
            } else {
                if self.data.attachment_ids@.len() == 0 {
                    &&& next is Done
                    &&& action matches StoreAction::RollBackAndAnswer(m) && tells_created(
                        m,
                        row,
                        self.data,
                        Seq::empty(),
                    )
                } else {
                    next == Stage::Rereading(row) && action is RollBackAndRead
                }
            },
            (Stage::Associating(row), StoreEvent::Associated(given)) => match given {
                Some(n) => if n == self.data.attachment_ids@.len() {
                    next == Stage::Reading(row) && action is Read
                } else {
                    &&& next is Done
                    &&& action matches StoreAction::RollBackAndAnswer(m) && m.is_error(
                        "validation_error"@,
                        "one or more attachments are unavailable"@,
                        optional_text(self.data.req_id),
                    )
                },
                None => {
                    &&& next is Done
                    &&& action matches StoreAction::RollBackAndAnswer(m) && is_failure(m, self.data)
                },
            },
            (Stage::Reading(row), StoreEvent::Read(attachments)) => {
                next == Stage::Committing(row, attachments) && action is Commit
            },
            (Stage::Rereading(row), StoreEvent::Read(attachments)) => {
                &&& next is Done
                &&& action matches StoreAction::Answer(m) && tells_created(
                    m,
                    row,
                    self.data,
                    attachments@,
                )
            },
            (Stage::Committing(row, attachments), StoreEvent::Committed(committed)) => if committed {
                &&& next is Done
                &&& action matches StoreAction::Announce { community_id, message, row: stored } && {
                    &&& community_id == self.community_id
                    &&& stored == row
                    &&& tells_created(message, row, self.data, attachments@)
                }
            } else {
                next is Done && (action matches StoreAction::Answer(m) && is_failure(m, self.data))
            },
            (stage, _) => next == stage && action is Ignore,
        }
    }

    /// What is to be done, given what came of the last thing to do.
    pub fn on_event(self, event: StoreEvent) -> (r: (Sending, StoreAction))
        requires
            self.wf(),
        ensures
            r.0.wf(),
            r.0.data == self.data,
            r.0.community_id == self.community_id,
            self.follows(event, r.0.stage, r.1),
    {
        let Sending { data, community_id, stage } = self;
        match (stage, event) {
            (Stage::Opening, StoreEvent::Opened(opened)) => {
                if opened {
                    (Sending { data, community_id, stage: Stage::Storing }, StoreAction::Store)
                } else {
                    let m: OutboundEnvelope = refusal(
                        "internal_error",
                        "failed to send message",
                        &data.req_id,
                    );
                    (Sending { data, community_id, stage: Stage::Done }, StoreAction::Answer(m))
                }
            },
            (Stage::Storing, StoreEvent::Stored(None)) => {
                let m: OutboundEnvelope = refusal(
                    "internal_error",
                    "failed to send message",
                    &data.req_id,
                );
                (Sending { data, community_id, stage: Stage::Done }, StoreAction::Answer(m))
            },
            (Stage::Storing, StoreEvent::Stored(Some(row))) => {
                let bare: bool = data.attachment_ids.len() == 0;
                if row.is_new_insert {
                    if bare {
                        (
                            Sending { data, community_id, stage: Stage::Committing(row, Vec::new()) },
                            StoreAction::Commit,
                        )
                    } else {
                        let message_id: Uuid = row.id;
                        (
                            Sending { data, community_id, stage: Stage::Associating(row) },
                            StoreAction::Associate { message_id },
                        )
                    }
                } else if bare {
                    let none: Vec<AttachmentRow> = Vec::new();
                    let m: OutboundEnvelope = created_message(&row, &data, &none);
                    assert(none@ =~= Seq::empty());
                    (
                        Sending { data, community_id, stage: Stage::Done },
                        StoreAction::RollBackAndAnswer(m),
                    )
                } else {
                    (
                        Sending { data, community_id, stage: Stage::Rereading(row) },
                        StoreAction::RollBackAndRead,
                    )
                }
            },
            (Stage::Associating(row), StoreEvent::Associated(given)) => {
                match given {
                    Some(n) => {
                        if n == data.attachment_ids.len() as u64 {
                            (
                                Sending { data, community_id, stage: Stage::Reading(row) },
                                StoreAction::Read,
                            )
                        } else {
                            let m: OutboundEnvelope = refusal(
                                "validation_error",
                                "one or more attachments are unavailable",
                                &data.req_id,
                            );
                            (
                                Sending { data, community_id, stage: Stage::Done },
                                StoreAction::RollBackAndAnswer(m),
                            )
                        }
                    },
                    None => {
                        let m: OutboundEnvelope = refusal(
                            "internal_error",
                            "failed to send message",
                            &data.req_id,
                        );
                        (
                            Sending { data, community_id, stage: Stage::Done },
                            StoreAction::RollBackAndAnswer(m),
                        )
                    },
                }
            },
            (Stage::Reading(row), StoreEvent::Read(attachments)) => {
                (
                    Sending { data, community_id, stage: Stage::Committing(row, attachments) },
                    StoreAction::Commit,
                )
            },
            (Stage::Rereading(row), StoreEvent::Read(attachments)) => {
                let m: OutboundEnvelope = created_message(&row, &data, &attachments);
                (Sending { data, community_id, stage: Stage::Done }, StoreAction::Answer(m))
            },
            (Stage::Committing(row, attachments), StoreEvent::Committed(committed)) => {
                if committed {
                    let message: OutboundEnvelope = created_message(&row, &data, &attachments);
                    (
                        Sending { data, community_id, stage: Stage::Done },
                        StoreAction::Announce { community_id, message, row },
                    )
                } else {
                    let m: OutboundEnvelope = refusal(
                        "internal_error",
                        "failed to send message",
                        &data.req_id,
                    );
                    (Sending { data, community_id, stage: Stage::Done }, StoreAction::Answer(m))
                }
            },
            (stage, _) => (Sending { data, community_id, stage }, StoreAction::Ignore),
        }
    }
}

/// A community hears only of a message that is stored for good, and of a
/// retry it never hears.
pub proof fn law_announced_once_stored(s: Sending, event: StoreEvent, next: Stage, action: StoreAction)
    requires
        s.wf(),
        s.follows(event, next, action),
        action is Announce,
    ensures
        s.stage is Committing,
        event == StoreEvent::Committed(true),
        action->Announce_row.is_new_insert,
        next is Done,
{
}

/// Once a message is done with, nothing more is done.
pub proof fn law_done_is_done(s: Sending, event: StoreEvent, next: Stage, action: StoreAction)
    requires
        s.stage is Done,
        s.follows(event, next, action),
    ensures
        next is Done,
        action is Ignore,
{
}

/// The refusal of an edit that cannot be made.
pub fn check_edit(data: &ChatMessageEdit) -> (r: Option<OutboundEnvelope>)
    ensures
        r is Some <==> blank(data.content@) || utf8_len(data.content@) > MAX_MESSAGE_BYTES,
        r matches Some(m) ==> m.is_error(
            "validation_error"@,
            "message must be 1..=4000 chars"@,
            optional_text(data.req_id),
        ),
{
    if is_blank(data.content.as_str()) || byte_len(data.content.as_str()) > MAX_MESSAGE_BYTES {
        Some(refusal("validation_error", "message must be 1..=4000 chars", &data.req_id))
    } else {
        None
    }
}

/// What came of changing a stored message.
#[derive(Debug)]
pub enum Changed<T> {
    /// It was changed.
    Yes(T),
    /// There is no such message of this author.
    No,
    /// The store failed.
    Failed,
}

/// What is done about it.
#[derive(Debug)]
pub enum ChangeAction {
    /// Nobody is told.
    Silence,
    /// The author is told.
    Answer(OutboundEnvelope),
    /// The community is told, and the links in the text are looked up where
    /// there is one.
    Announce { community_id: Uuid, message: OutboundEnvelope, preview: Option<Preview> },
}

/// A text whose links are to be looked up, and the message that it is of.
#[derive(Debug)]
pub struct Preview {
    pub message_id: Uuid,
    pub channel_id: Uuid,
    pub content: String,
}

/// Is this the refusal to change a message of someone else?
pub open spec fn is_not_yours(m: OutboundEnvelope, req_id: Option<String>) -> bool {
    m.is_error("forbidden"@, "message not found or not yours"@, optional_text(req_id))
}

/// An edited message.
#[derive(Debug)]
pub struct EditedRow {
    pub id: Uuid,
    pub channel_id: Uuid,
    pub content: String,
    pub edited_at: Option<UtcTime>,
}

/// What follows an edit: the community is told, and the links of the new text
/// are looked up. `community`: that of the channel, where the author still
/// sees it.
pub fn on_edited(edited: &Changed<EditedRow>, community: Option<Uuid>, data: &ChatMessageEdit) -> (r:
    ChangeAction)
    ensures
        match edited {
            Changed::Yes(row) => match community {
                Some(id) => r matches ChangeAction::Announce { community_id, message, preview } && {
                    &&& community_id == id
                    &&& preview == Some(
                        Preview {
                            message_id: row.id,
                            channel_id: row.channel_id,
                            content: row.content,
                        },
                    )
                    &&& message.data is ChatMessageEdited
                    &&& message.is_message("chat.message.edited"@, message.data)
                    &&& message.data->ChatMessageEdited_0.message_id == row.id
                    &&& message.data->ChatMessageEdited_0.content@ == row.content@
                    &&& message.data->ChatMessageEdited_0.edited_at == row.edited_at
                    &&& message.data->ChatMessageEdited_0.in_reply_to == data.req_id
                },
                None => r is Silence,
            },
            Changed::No => r matches ChangeAction::Answer(m) && is_not_yours(m, data.req_id),
            Changed::Failed => r is Silence,
        },
{
    match edited {
        Changed::Yes(row) => match community {
            Some(community_id) => ChangeAction::Announce {
                community_id,
                message: OutboundEnvelope::new(
                    "chat.message.edited",
                    Payload::ChatMessageEdited(
                        ChatMessageEdited {
                            message_id: row.id,
                            content: row.content.clone(),
                            edited_at: row.edited_at,
                            in_reply_to: copy_optional(&data.req_id),
                        },
                    ),
                ),
                preview: Some(
                    Preview {
                        message_id: row.id,
                        channel_id: row.channel_id,
                        content: row.content.clone(),
                    },
                ),
            },
            None => ChangeAction::Silence,
        },
        Changed::No => ChangeAction::Answer(
            refusal("forbidden", "message not found or not yours", &data.req_id),
        ),
        Changed::Failed => ChangeAction::Silence,
    }
}

/// What follows a deletion. `deleted`: the message and its channel.
pub fn on_deleted(deleted: &Changed<(Uuid, Uuid)>, community: Option<Uuid>, data: &ChatMessageDelete) -> (r:
    ChangeAction)
    ensures
        match deleted {
            Changed::Yes(row) => match community {
                Some(id) => r matches ChangeAction::Announce { community_id, message, preview } && {
                    &&& community_id == id
                    &&& preview is None
                    &&& message.is_message(
                        "chat.message.deleted"@,
                        Payload::ChatMessageDeleted(
                            ChatMessageDeleted {
                                message_id: row.0,
                                channel_id: row.1,
                                in_reply_to: data.req_id,
                            },
                        ),
                    )
                },
                None => r is Silence,
            },
            Changed::No => r matches ChangeAction::Answer(m) && is_not_yours(m, data.req_id),
            Changed::Failed => r is Silence,
        },
{
    match deleted {
        Changed::Yes(row) => match community {
            Some(community_id) => ChangeAction::Announce {
                community_id,
                message: OutboundEnvelope::new(
                    "chat.message.deleted",
                    Payload::ChatMessageDeleted(
                        ChatMessageDeleted {
                            message_id: row.0,
                            channel_id: row.1,
                            in_reply_to: copy_optional(&data.req_id),
                        },
                    ),
                ),
                preview: None,
            },
            None => ChangeAction::Silence,
        },
        Changed::No => ChangeAction::Answer(
            refusal("forbidden", "message not found or not yours", &data.req_id),
        ),
        Changed::Failed => ChangeAction::Silence,
    }
}

/// A message to a text channel is fit to be sent if and only if it has at most
/// 4000 bytes and at most ten attachments, none of them twice, and says
/// something or has an attachment.
pub proof fn law_fit_to_send(data: ChatMessageCreate, channel: Channel)
    requires
        channel.kind@ == "text"@,
    ensures
        create_fault(data, Some(channel)) is None <==> {
            &&& utf8_len(data.content@) <= 4000
            &&& data.attachment_ids@.len() <= 10
            &&& forall|i: int, j: int|
                0 <= i < j < data.attachment_ids@.len() ==> #[trigger] data.attachment_ids@[i]
                    != #[trigger] data.attachment_ids@[j]
            &&& data.attachment_ids@.len() > 0 || exists|i: int|
                0 <= i < data.content@.len() && !is_white_space(#[trigger] data.content@[i])
        },
{
    let ids = data.attachment_ids@;
    if forall|i: int, j: int| 0 <= i < j < ids.len() ==> #[trigger] ids[i] != #[trigger] ids[j] {
        assert(ids.no_duplicates());
    }
}

/// Why a message is not sent: it is for a channel that its author does not see,
/// or for one that is not a text channel; or it says nothing or too much; or
/// its attachments are too many or not different. The first that holds is told.
pub proof fn law_unfit_to_send(data: ChatMessageCreate, channel: Channel)
    ensures
        create_fault(data, None) == Some(("forbidden"@, "not a member of this channel's community"@)),
        channel.kind@ != "text"@ ==> create_fault(data, Some(channel)) == Some(
            ("validation_error"@, "messages can only be sent to text channels"@),
        ),
        channel.kind@ == "text"@ ==> {
            let says = exists|i: int|
                0 <= i < data.content@.len() && !is_white_space(#[trigger] data.content@[i]);
            let unsayable = utf8_len(data.content@) > 4000 || (!says && data.attachment_ids@.len() == 0);
            &&& unsayable ==> create_fault(data, Some(channel)) == Some(
                ("validation_error"@, "message must be 1..=4000 chars or contain attachments"@),
            )
            &&& !unsayable && create_fault(data, Some(channel)) is Some ==> create_fault(
                data,
                Some(channel),
            ) == Some(("validation_error"@, "attachments must contain at most 10 unique ids"@))
        },
{
}

/// Does `m` tell everyone of the message `row`, with the attachments
/// `attachments`, in answer to the request `data`?
pub open spec fn tells_all_of(
    m: OutboundEnvelope,
    row: MessageRow,
    data: ChatMessageCreate,
    attachments: Seq<AttachmentRow>,
) -> bool {
    &&& m.v == 1
    &&& m.op@ == "chat.message.created"@
    &&& m.data matches Payload::ChatMessageCreated(c) && {
        &&& c.message.id == row.id
        &&& c.message.channel_id == row.channel_id
        &&& c.message.author_id == row.author_id
        &&& c.message.content@ == row.content@
        &&& c.message.created_at == row.created_at
        &&& c.message.edited_at == row.edited_at
        &&& c.message.attachment_ids@ == data.attachment_ids@
        &&& c.message.attachments@.len() == attachments.len()
        &&& forall|i: int|
            0 <= i < attachments.len() ==> {
                &&& (#[trigger] c.message.attachments@[i]).id == attachments[i].id
                &&& c.message.attachments@[i].filename@ == attachments[i].filename@
                &&& c.message.attachments@[i].content_type@ == attachments[i].content_type@
                &&& c.message.attachments@[i].size_bytes == attachments[i].size_bytes
                &&& c.message.attachments@[i].url@ == "/api/attachments/"@ + uuid_text(attachments[i].id)
            }
        &&& c.message.music_status is None
        &&& c.in_reply_to is Some <==> data.req_id is Some
        &&& data.req_id is Some ==> c.in_reply_to->0@ == data.req_id->0@
    }
}

/// Is `m` the error `code` with the text `text`, in answer to the request
/// `req_id`?
pub open spec fn errs(m: OutboundEnvelope, code: Seq<char>, text: Seq<char>, req_id: Option<String>) -> bool {
    &&& m.v == 1
    &&& m.op@ == "error"@
    &&& m.data matches Payload::Error(e) && {
        &&& e.code@ == code
        &&& e.message@ == text
        &&& e.in_reply_to is Some <==> req_id is Some
        &&& req_id is Some ==> e.in_reply_to->0@ == req_id->0@
    }
}

/// A message without attachments that is stored as new, and committed, is
/// announced to its community, as it was stored.
pub proof fn law_plain_message_announced(
    data: ChatMessageCreate,
    community_id: Uuid,
    row: MessageRow,
    first: Stage,
    second: Stage,
    third: Stage,
    a: StoreAction,
    b: StoreAction,
    c: StoreAction,
)
    requires
        data.attachment_ids@.len() == 0,
        row.is_new_insert,
        (Sending { data, community_id, stage: Stage::Opening }).follows(StoreEvent::Opened(true), first, a),
        (Sending { data, community_id, stage: first }).follows(StoreEvent::Stored(Some(row)), second, b),
        (Sending { data, community_id, stage: second }).follows(StoreEvent::Committed(true), third, c),
    ensures
        a is Store,
        b is Commit,
        c is Announce,
        c->Announce_community_id == community_id,
        c->Announce_row == row,
        tells_all_of(c->Announce_message, row, data, Seq::empty()),
        third is Done,
{
}

/// A message with attachments that is stored as new, that is given each of
/// them, and that is committed, is announced to its community, as it was stored
/// and with the attachments that were read.
pub proof fn law_full_message_announced(
    data: ChatMessageCreate,
    community_id: Uuid,
    row: MessageRow,
    attachments: Vec<AttachmentRow>,
    given: u64,
    s1: Stage,
    s2: Stage,
    s3: Stage,
    s4: Stage,
    s5: Stage,
    a1: StoreAction,
    a2: StoreAction,
    a3: StoreAction,
    a4: StoreAction,
    a5: StoreAction,
)
    requires
        data.attachment_ids@.len() > 0,
        row.is_new_insert,
        given == data.attachment_ids@.len(),
        (Sending { data, community_id, stage: Stage::Opening }).follows(StoreEvent::Opened(true), s1, a1),
        (Sending { data, community_id, stage: s1 }).follows(StoreEvent::Stored(Some(row)), s2, a2),
        (Sending { data, community_id, stage: s2 }).follows(StoreEvent::Associated(Some(given)), s3, a3),
        (Sending { data, community_id, stage: s3 }).follows(StoreEvent::Read(attachments), s4, a4),
        (Sending { data, community_id, stage: s4 }).follows(StoreEvent::Committed(true), s5, a5),
    ensures
        a1 is Store,
        a2 == (StoreAction::Associate { message_id: row.id }),
        a3 is Read,
        a4 is Commit,
        a5 is Announce,
        a5->Announce_community_id == community_id,
        a5->Announce_row == row,
        tells_all_of(a5->Announce_message, row, data, attachments@),
        s5 is Done,
{
}

/// A retry of a message that was stored before changes nothing in the store:
/// its sender alone is told of the message as it was stored, with its
/// attachments.
pub proof fn law_retry_answered(
    data: ChatMessageCreate,
    community_id: Uuid,
    row: MessageRow,
    attachments: Vec<AttachmentRow>,
    s1: Stage,
    s2: Stage,
    a1: StoreAction,
    a2: StoreAction,
)
    requires
        !row.is_new_insert,
        (Sending { data, community_id, stage: Stage::Storing }).follows(
            StoreEvent::Stored(Some(row)),
            s1,
            a1,
        ),
        (Sending { data, community_id, stage: s1 }).follows(StoreEvent::Read(attachments), s2, a2),
    ensures
        s2 is Done,
        data.attachment_ids@.len() == 0 ==> {
            &&& a1 is RollBackAndAnswer
            &&& tells_all_of(a1->RollBackAndAnswer_0, row, data, Seq::empty())
            &&& a2 is Ignore
        },
        data.attachment_ids@.len() > 0 ==> {
            &&& a1 is RollBackAndRead
            &&& a2 is Answer
            &&& tells_all_of(a2->Answer_0, row, data, attachments@)
        },
{
}

/// Where the store fails, at whatever stage, the sender is told so, nobody else
/// hears of the message, and that is the end of it. What was begun is rolled
/// back, and so is a message that not every attachment could be given to.
pub proof fn law_store_failure_told(
    data: ChatMessageCreate,
    community_id: Uuid,
    row: MessageRow,
    attachments: Vec<AttachmentRow>,
    given: Option<u64>,
    next: Stage,
    action: StoreAction,
)
    ensures
        (Sending { data, community_id, stage: Stage::Opening }).follows(
            StoreEvent::Opened(false),
            next,
            action,
        ) || (Sending { data, community_id, stage: Stage::Storing }).follows(
            StoreEvent::Stored(None),
            next,
            action,
        ) || (Sending { data, community_id, stage: Stage::Committing(row, attachments) }).follows(
            StoreEvent::Committed(false),
            next,
            action,
        ) ==> next is Done && action is Answer && errs(
            action->Answer_0,
            "internal_error"@,
            "failed to send message"@,
            data.req_id,
        ),
        (Sending { data, community_id, stage: Stage::Associating(row) }).follows(
            StoreEvent::Associated(given),
            next,
            action,
        ) && given != Some(data.attachment_ids@.len() as u64) && data.attachment_ids@.len() <= 10 ==> {
            &&& next is Done
            &&& action is RollBackAndAnswer
            &&& given is None ==> errs(
                action->RollBackAndAnswer_0,
                "internal_error"@,
                "failed to send message"@,
                data.req_id,
            )
            &&& given is Some ==> errs(
                action->RollBackAndAnswer_0,
                "validation_error"@,
                "one or more attachments are unavailable"@,
                data.req_id,
            )
        },
{
}

/// What does not belong to the stage that a message is at does nothing.
pub proof fn law_stray_event_ignored(s: Sending, event: StoreEvent, next: Stage, action: StoreAction)
    requires
        s.follows(event, next, action),
        match s.stage {
            Stage::Opening => !(event is Opened),
            Stage::Storing => !(event is Stored),
            Stage::Associating(_) => !(event is Associated),
            Stage::Reading(_) => !(event is Read),
            Stage::Rereading(_) => !(event is Read),
            Stage::Committing(_, _) => !(event is Committed),
            Stage::Done => true,
        },
    ensures
        next == s.stage,
        action is Ignore,
{
}

/// Who changes a message of someone else is told that it is not theirs.
pub proof fn law_not_yours(m: OutboundEnvelope, req_id: Option<String>)
    ensures
        is_not_yours(m, req_id) <==> errs(m, "forbidden"@, "message not found or not yours"@, req_id),
{
}

/// What the sender of a message is told before it is stored: nothing if it is
/// fit to be sent, and otherwise why it is not.
pub proof fn law_create_checked(data: &ChatMessageCreate, channel: Option<&Channel>, r: Option<OutboundEnvelope>)
    requires
        call_ensures(check_create, (data, channel), r),
    ensures
        r is None <==> {
            &&& channel is Some && channel->0.kind@ == "text"@
            &&& utf8_len(data.content@) <= 4000
            &&& data.attachment_ids@.len() <= 10
            &&& forall|i: int, j: int|
                0 <= i < j < data.attachment_ids@.len() ==> #[trigger] data.attachment_ids@[i]
                    != #[trigger] data.attachment_ids@[j]
            &&& data.attachment_ids@.len() > 0 || exists|i: int|
                0 <= i < data.content@.len() && !is_white_space(#[trigger] data.content@[i])
        },
        channel is None ==> errs(
            r->0,
            "forbidden"@,
            "not a member of this channel's community"@,
            data.req_id,
        ),
        channel is Some && channel->0.kind@ != "text"@ ==> errs(
            r->0,
            "validation_error"@,
            "messages can only be sent to text channels"@,
            data.req_id,
        ),
{
    if channel is Some {
        law_unfit_to_send(*data, *channel->0);
        if channel->0.kind@ == "text"@ {
            law_fit_to_send(*data, *channel->0);
        }
    }
}

/// An edit is made if and only if it says something, in at most 4000 bytes;
/// otherwise the author is told so.
pub proof fn law_edit_checked(data: &ChatMessageEdit, r: Option<OutboundEnvelope>)
    requires
        call_ensures(check_edit, (data,), r),
    ensures
        r is None <==> utf8_len(data.content@) <= 4000 && exists|i: int|
            0 <= i < data.content@.len() && !is_white_space(#[trigger] data.content@[i]),
        r is Some ==> errs(r->0, "validation_error"@, "message must be 1..=4000 chars"@, data.req_id),
{
}

/// An edit that was made is told to the community that its author still sees,
/// with the text and the moment as they were stored, and the links of that text
/// are looked up; one that was not made is refused to its author; and where the
/// store failed, or the channel is not seen any more, nobody is told.
pub proof fn law_edit_told(
    edited: &Changed<EditedRow>,
    community: Option<Uuid>,
    data: &ChatMessageEdit,
    r: ChangeAction,
)
    requires
        call_ensures(on_edited, (edited, community, data), r),
    ensures
        *edited is Yes && community is Some ==> {
            let row = edited->Yes_0;
            let m = r->Announce_message;
            &&& r is Announce
            &&& r->Announce_community_id == community->0
            &&& r->Announce_preview is Some
            &&& r->Announce_preview->0.message_id == row.id
            &&& r->Announce_preview->0.channel_id == row.channel_id
            &&& r->Announce_preview->0.content@ == row.content@
            &&& m.v == 1 && m.op@ == "chat.message.edited"@ && m.data is ChatMessageEdited
            &&& m.data->ChatMessageEdited_0.message_id == row.id
            &&& m.data->ChatMessageEdited_0.content@ == row.content@
            &&& m.data->ChatMessageEdited_0.edited_at == row.edited_at
            &&& m.data->ChatMessageEdited_0.in_reply_to == data.req_id
        },
        *edited is Yes && community is None ==> r is Silence,
        *edited is No ==> r is Answer && errs(
            r->Answer_0,
            "forbidden"@,
            "message not found or not yours"@,
            data.req_id,
        ),
        *edited is Failed ==> r is Silence,
{
}

/// A deletion that was made is told to the community that its author still sees,
/// by the message and its channel; one that was not made is refused to its
/// author; and where the store failed, or the channel is not seen any more,
/// nobody is told.
pub proof fn law_deletion_told(
    deleted: &Changed<(Uuid, Uuid)>,
    community: Option<Uuid>,
    data: &ChatMessageDelete,
    r: ChangeAction,
)
    requires
        call_ensures(on_deleted, (deleted, community, data), r),
    ensures
        *deleted is Yes && community is Some ==> {
            let m = r->Announce_message;
            &&& r is Announce
            &&& r->Announce_community_id == community->0
            &&& r->Announce_preview is None
            &&& m.v == 1 && m.op@ == "chat.message.deleted"@ && m.data is ChatMessageDeleted
            &&& m.data->ChatMessageDeleted_0.message_id == deleted->Yes_0.0
            &&& m.data->ChatMessageDeleted_0.channel_id == deleted->Yes_0.1
            &&& m.data->ChatMessageDeleted_0.in_reply_to == data.req_id
        },
        *deleted is Yes && community is None ==> r is Silence,
        *deleted is No ==> r is Answer && errs(
            r->Answer_0,
            "forbidden"@,
            "message not found or not yours"@,
            data.req_id,
        ),
        *deleted is Failed ==> r is Silence,
{
}

/// A message on its way keeps what it says and where it goes; it starts with
/// the transaction still to be opened; and a new one that is committed is
/// announced to that community.
pub proof fn law_sending_kept(
    data: ChatMessageCreate,
    community_id: Uuid,
    s: Sending,
    sending: Sending,
    event: StoreEvent,
    r: (Sending, StoreAction),
)
    requires
        call_ensures(Sending::start, (data, community_id), s),
        call_ensures(Sending::on_event, (sending, event), r),
    ensures
        s.data == data,
        s.community_id == community_id,
        s.stage is Opening,
        r.0.data == sending.data,
        r.0.community_id == sending.community_id,
        sending.stage is Opening && event == StoreEvent::Opened(true) ==> r.1 is Store && r.0.stage is Storing,
        sending.stage is Committing && event == StoreEvent::Committed(true) ==> {
            let row = sending.stage->Committing_0;
            &&& r.0.stage is Done
            &&& r.1 is Announce
            &&& r.1->Announce_community_id == sending.community_id
            &&& r.1->Announce_row == row
            &&& tells_all_of(r.1->Announce_message, row, sending.data, sending.stage->Committing_1@)
        },
        sending.stage is Done ==> r.0.stage is Done && r.1 is Ignore,
        sending.follows(event, r.0.stage, r.1),
{
}

} // verus!
