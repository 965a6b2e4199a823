//! The message model of a conversation: roles, the status machine of a
//! message (streaming → complete | error | cancelled) and the stored row.

use vstd::prelude::*;
use crate::text::str_eq;
use crate::timestamp::Timestamp;

verus! {

/// Who wrote a message.
#[derive(Debug, Clone, Copy, PartialEq, Eq, Structural)]
pub enum MessageRole {
    User,
    Assistant,
    System,
}

/// The stored name of a role.
pub open spec fn role_name(r: MessageRole) -> Seq<char> {
    match r {
        MessageRole::User => "user"@,
        MessageRole::Assistant => "assistant"@,
        MessageRole::System => "system"@,
    }
}

/// The role a stored name stands for, if any.
pub open spec fn role_of_name(s: Seq<char>) -> Option<MessageRole> {
    if s == "user"@ {
        Some(MessageRole::User)
    } else if s == "assistant"@ {
        Some(MessageRole::Assistant)
    } else if s == "system"@ {
        Some(MessageRole::System)
    } else {
        None
    }
}

impl MessageRole {
    /// The stored name of this role.
    pub fn as_str(self) -> (r: &'static str)
        ensures
            r@ == role_name(self),
    {
        match self {
            MessageRole::User => "user",
            MessageRole::Assistant => "assistant",
            MessageRole::System => "system",
        }
    }

    /// The role that a stored name stands for; `None` for any other text.
    pub fn parse(s: &str) -> (r: Option<MessageRole>)
        ensures
            r == role_of_name(s@),
    {
        if str_eq(s, "user") {
            Some(MessageRole::User)
        } else if str_eq(s, "assistant") {
            Some(MessageRole::Assistant)
        } else if str_eq(s, "system") {
            Some(MessageRole::System)
        } else {
            None
        }
    }
}

/// Where a message is in its life: streaming → complete | error | cancelled.
#[derive(Debug, Clone, Copy, PartialEq, Eq, Structural)]
pub enum MessageStatus {
    /// being produced
    Streaming,
    /// finished normally
    Complete,
    /// failed (an error text is kept with it)
    Error,
    /// stopped by the user (what was produced is kept)
    Cancelled,
}

/// The stored name of a status.
pub open spec fn status_name(s: MessageStatus) -> Seq<char> {
    match s {
        MessageStatus::Streaming => "streaming"@,
        MessageStatus::Complete => "complete"@,
        MessageStatus::Error => "error"@,
        MessageStatus::Cancelled => "cancelled"@,
    }
}

/// The status a stored name stands for, if any.
pub open spec fn status_of_name(s: Seq<char>) -> Option<MessageStatus> {
    if s == "streaming"@ {
        Some(MessageStatus::Streaming)
    } else if s == "complete"@ {
        Some(MessageStatus::Complete)
    } else if s == "error"@ {
        Some(MessageStatus::Error)
    } else if s == "cancelled"@ {
        Some(MessageStatus::Cancelled)
    } else {
        None
    }
}

impl MessageStatus {
    /// The stored name of this status.
    pub fn as_str(self) -> (r: &'static str)
        ensures
            r@ == status_name(self),
    {
        match self {
            MessageStatus::Streaming => "streaming",
            MessageStatus::Complete => "complete",
            MessageStatus::Error => "error",
            MessageStatus::Cancelled => "cancelled",
        }
    }

    /// The status that a stored name stands for; `None` for any other text.
    pub fn parse(s: &str) -> (r: Option<MessageStatus>)
        ensures
            r == status_of_name(s@),
    {
        if str_eq(s, "streaming") {
            Some(MessageStatus::Streaming)
        } else if str_eq(s, "complete") {
            Some(MessageStatus::Complete)
        } else if str_eq(s, "error") {
            Some(MessageStatus::Error)
        } else if str_eq(s, "cancelled") {
            Some(MessageStatus::Cancelled)
        } else {
            None
        }
    }
}

/// Reading back the stored name of a role gives the role.
pub proof fn law_role_round_trip(r: MessageRole)
    ensures
        role_of_name(role_name(r)) == Some(r),
{
    reveal_strlit("user");
    reveal_strlit("assistant");
    reveal_strlit("system");
    assert("assistant"@.len() != "user"@.len());
    assert("system"@.len() != "user"@.len());
    assert("system"@.len() != "assistant"@.len());
}

/// A text that reads as a role is that role's stored name: no two names read
/// as the same role.
pub proof fn law_role_name_unique(s: Seq<char>, r: MessageRole)
    requires
        role_of_name(s) == Some(r),
    ensures
        s == role_name(r),
{
}

/// Reading back the stored name of a status gives the status.
pub proof fn law_status_round_trip(s: MessageStatus)
    ensures
        status_of_name(status_name(s)) == Some(s),
{
    reveal_strlit("streaming");
    reveal_strlit("complete");
    reveal_strlit("error");
    reveal_strlit("cancelled");
    assert("complete"@.len() != "streaming"@.len());
    assert("error"@.len() != "streaming"@.len());
    assert("error"@.len() != "complete"@.len());
    assert("cancelled"@ != "streaming"@) by {
        assert("cancelled"@[0] != "streaming"@[0]);
    }
    assert("cancelled"@.len() != "complete"@.len());
    assert("cancelled"@.len() != "error"@.len());
}

/// A text that reads as a status is that status's stored name.
pub proof fn law_status_name_unique(t: Seq<char>, s: MessageStatus)
    requires
        status_of_name(t) == Some(s),
    ensures
        t == status_name(s),
{
}

/// A stored message.
#[derive(Debug, Clone)]
pub struct MessageRow {
    pub id: String,
    pub conversation_id: String,
    pub role: MessageRole,
    pub status: MessageStatus,
    /// the text, accumulated while streaming
    pub content: String,
    /// the reasoning of a reasoning model, kept apart from the text
    pub reasoning: Option<String>,
    /// the error text of a message in status error
    pub error: Option<String>,
    /// the model that wrote an assistant message
    pub model: Option<String>,
    pub created_at: Timestamp,
    pub updated_at: Timestamp,
    /// input tokens the provider reported
    pub prompt_tokens: Option<u64>,
    /// output tokens the provider reported
    pub completion_tokens: Option<u64>,
    /// total tokens the provider reported
    pub total_tokens: Option<u64>,
}

} // verus!
