//! Wire-level data the tool exchanges with Discord: messages, attachments
//! and outgoing requests.

use vstd::prelude::*;

verus! {

#[verifier::external_type_specification]
#[verifier::external_body]
pub struct ExBytes(bytes::Bytes);

/// The bytes a `bytes::Bytes` buffer holds.
pub uninterp spec fn bytes_content(b: bytes::Bytes) -> Seq<u8>;

/// `bytes::Bytes::from(Vec<u8>)`: the buffer takes over the vector's
/// contents unchanged.
#[verifier::external_body]
pub(crate) fn bytes_from_vec(v: Vec<u8>) -> (b: bytes::Bytes)
    ensures
        bytes_content(b) == v@,
{
    bytes::Bytes::from(v)
}

#[derive(Debug, Clone, PartialEq, Eq)]
pub struct Author {
    pub id: String,
    pub username: String,
    /// Absent on non-bot authors in the Discord payload; absent means false.
    pub bot: bool,
}

/// A file attached to a Discord message.
#[derive(Debug, Clone, PartialEq, Eq)]
pub struct Attachment {
    pub id: String,
    pub filename: String,
    pub size: u64,
    pub url: String,
    pub content_type: Option<String>,
}

#[derive(Debug, Clone, PartialEq, Eq)]
pub struct Message {
    pub id: String,
    pub channel_id: String,
    pub author: Author,
    pub content: String,
    pub timestamp: String,
    pub attachments: Vec<Attachment>,
}

/// Result of a successful send; a Discord message object narrowed to what
/// the `send` envelope reports.
#[derive(Debug, Clone, PartialEq, Eq)]
pub struct SentMessage {
    pub id: String,
    pub channel_id: String,
    pub timestamp: String,
    pub attachments: Vec<Attachment>,
}

/// One attachment to upload.
#[derive(Debug, PartialEq, Eq)]
pub struct FilePart {
    pub filename: String,
    pub bytes: bytes::Bytes,
    pub content_type: String,
}

/// Request for `POST /channels/{channel_id}/messages`.
#[derive(Debug, PartialEq, Eq)]
pub struct SendRequest {
    pub channel_id: String,
    pub content: String,
    /// Message id to reply to in the same channel; `None` sends a plain message.
    pub reply_to: Option<String>,
    pub files: Vec<FilePart>,
}

/// Request to open a thread on a channel, or on one of its messages.
#[derive(Debug, Clone, PartialEq, Eq)]
pub struct CreateThreadRequest {
    pub channel_id: String,
    pub name: String,
    pub from_message_id: Option<String>,
}

/// The thread Discord reports back.
#[derive(Debug, Clone, PartialEq, Eq)]
pub struct CreatedThread {
    pub id: String,
    pub name: String,
}

} // verus!
