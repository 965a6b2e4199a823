//! Inputs of the conversation commands and the rule for a generated title.

use vstd::prelude::*;
use crate::commands::error::{AppError, AppErrorV};
use crate::documents::{spec_trim, trim};
use crate::message::{MessageRole, MessageRow, MessageStatus};
use crate::text::chars_of;

verus! {

/// Input of `create_conversation`.
#[derive(Debug, Clone)]
pub struct CreateConversationInput {
    pub title: Option<String>,
}

/// Input of `set_conversation_pinned`.
#[derive(Debug, Clone)]
pub struct SetPinnedInput {
    pub id: String,
    pub pinned: bool,
}

/// Input of `delete_message`.
#[derive(Debug, Clone)]
pub struct DeleteMessageInput {
    pub message_id: String,
}

/// Input of `delete_message_and_after`.
#[derive(Debug, Clone)]
pub struct DeleteMessageAndAfterInput {
    pub message_id: String,
}

/// Input of `set_message_status`.
#[derive(Debug, Clone)]
pub struct SetMessageStatusInput {
    pub message_id: String,
    pub status: MessageStatus,
    pub error: Option<String>,
}

/// A message that a title can be generated from: from the user, not empty.
pub open spec fn titles_from(m: MessageRow) -> bool {
    m.role == MessageRole::User && m.content@.len() > 0
}

/// The position of the first message a title can be generated from.
pub fn first_user_message(messages: &Vec<MessageRow>) -> (r: Option<usize>)
    ensures
        match r {
            Some(i) => i < messages@.len() && titles_from(messages@[i as int]) && forall|j: int|
                0 <= j < i ==> !titles_from(#[trigger] messages@[j]),
            None => forall|j: int| 0 <= j < messages@.len() ==> !titles_from(#[trigger] messages@[j]),
        },
{
    let n = messages.len();
    let mut i: usize = 0;
    while i < n
        invariant
            n == messages@.len(),
            i <= n,
            forall|j: int| 0 <= j < i ==> !titles_from(#[trigger] messages@[j]),
        decreases n - i,
    {
        let m = &messages[i];
        let is_user = match m.role {
            MessageRole::User => true,
            _ => false,
        };
        if is_user && chars_of(m.content.as_str()).len() > 0 {
            return Some(i);
        }
        i = i + 1;
    }
    None
}

/// The error when a conversation has no message to take a title from.
pub fn no_title_source() -> (r: AppError)
    ensures
        r@ == AppErrorV::Agent("无可用的首条用户消息生成标题"@),
{
    AppError::Agent("无可用的首条用户消息生成标题".to_owned())
}

/// A generated title, trimmed; a blank one is refused.
pub fn accept_generated_title(title: &str) -> (r: Result<String, AppError>)
    ensures
        match r {
            Ok(t) => t@ == spec_trim(title@) && t@.len() > 0,
            Err(e) => spec_trim(title@).len() == 0 && e@ == AppErrorV::Agent("LLM 返回空标题"@),
        },
{
    let t = trim(title);
    if chars_of(t.as_str()).len() == 0 {
        Err(AppError::Agent("LLM 返回空标题".to_owned()))
    } else {
        Ok(t)
    }
}

} // verus!
