//! Conversations and their messages as the repository hands them out, and
//! the skill activation rows.

use vstd::prelude::*;
use crate::documents::{spec_truncate, truncate};
use crate::message::MessageRow;
use crate::text::{decimal_string, spec_decimal};
use crate::timestamp::Timestamp;

verus! {

/// A stored conversation.
#[derive(Debug, Clone)]
pub struct ConversationRow {
    pub id: String,
    pub title: String,
    pub created_at: Timestamp,
    pub updated_at: Timestamp,
    pub pinned: bool,
}

/// A conversation with a preview of its latest message, for the side list.
#[derive(Debug, Clone)]
pub struct ConversationSummary {
    pub conv: ConversationRow,
    /// the latest message, cut to 80 characters; none without messages
    pub last_message_preview: Option<String>,
    pub message_count: i32,
}

/// The conversation and message repository, as one name for callers.
pub struct ConversationRepo;

/// The title of a conversation created without one.
pub open spec fn default_title() -> Seq<char> {
    "新会话"@
}

/// The title a new conversation gets: the given one, else "新会话".
pub fn conversation_title(title: Option<&str>) -> (r: String)
    ensures
        r@ == (match title {
            Some(t) => t@,
            None => default_title(),
        }),
{
    match title {
        Some(t) => t.to_owned(),
        None => "新会话".to_owned(),
    }
}

/// Characters kept of the latest message in a conversation preview.
pub const PREVIEW_CHARS: usize = 80;

/// The preview of a latest message: cut to 80 characters.
pub fn message_preview(content: Option<String>) -> (r: Option<String>)
    ensures
        match (content, r) {
            (None, None) => true,
            (Some(c), Some(p)) => p@ == spec_truncate(c@, PREVIEW_CHARS as nat),
            _ => false,
        },
{
    match content {
        None => None,
        Some(c) => Some(truncate(c.as_str(), PREVIEW_CHARS)),
    }
}

/// The query of a conversation's messages: all of them oldest first, or, with
/// a limit, the newest `n` newest first (to be put back in order after).
pub open spec fn spec_messages_query(limit: Option<usize>) -> Seq<char> {
    match limit {
        Some(n) => "SELECT id, conversation_id, role, status, content, reasoning, error, model,created_at, updated_at, prompt_tokens, completion_tokens, total_tokens FROM messages WHERE conversation_id = ?1 ORDER BY created_at DESC, rowid DESC LIMIT "@
            + spec_decimal(n as nat),
        None => "SELECT id, conversation_id, role, status, content, reasoning, error, model,
                      created_at, updated_at, prompt_tokens, completion_tokens, total_tokens
               FROM messages WHERE conversation_id = ?1 ORDER BY created_at ASC"@,
    }
}

/// The SQL text that lists a conversation's messages.
pub fn messages_query(limit: Option<usize>) -> (r: String)
    ensures
        r@ == spec_messages_query(limit),
{
    match limit {
        Some(n) => {
            let digits = decimal_string(n as u128);
            let mut q = "SELECT id, conversation_id, role, status, content, reasoning, error, model,created_at, updated_at, prompt_tokens, completion_tokens, total_tokens FROM messages WHERE conversation_id = ?1 ORDER BY created_at DESC, rowid DESC LIMIT ".to_owned();
            q.append(digits.as_str());
            q
        },
        None => "SELECT id, conversation_id, role, status, content, reasoning, error, model,
                      created_at, updated_at, prompt_tokens, completion_tokens, total_tokens
               FROM messages WHERE conversation_id = ?1 ORDER BY created_at ASC".to_owned(),
    }
}

/// The first columns a message row is read from, in the order the row is
/// read: column 4 is the content, column 5 the reasoning.
pub open spec fn message_columns_head() -> Seq<char> {
    "SELECT id, conversation_id, role, status, content, reasoning, error, model,"@
}

/// The remaining columns, in order: times and token counts.
pub open spec fn message_columns_tail() -> Seq<char> {
    "created_at, updated_at, prompt_tokens, completion_tokens, total_tokens"@
}

/// Whitespace in SQL text.
pub open spec fn sql_space(c: char) -> bool {
    c == ' ' || c == '\n'
}

/// Both message queries, limited or not, read the same columns in the same
/// order (id, conversation_id, role, status, content, reasoning, error,
/// model, created_at, updated_at, prompt_tokens, completion_tokens,
/// total_tokens), so that a row is read the same way whatever the limit; a
/// limited query ends with the limit.
pub proof fn law_message_queries_read_the_same_columns(limit: Option<usize>)
    ensures
        ({
            let q = spec_messages_query(limit);
            let h = message_columns_head();
            let t = message_columns_tail();
            &&& h.len() <= q.len()
            &&& q.take(h.len() as int) == h
            &&& exists|w: int|
                #![trigger q.subrange(h.len() + w, h.len() + w + t.len())]
                0 <= w && h.len() + w + t.len() <= q.len() && (forall|k: int|
                    h.len() <= k < h.len() + w ==> sql_space(#[trigger] q[k])) && q.subrange(
                    h.len() + w,
                    h.len() + w + t.len(),
                ) == t
        }),
        limit matches Some(n) ==> exists|pre: Seq<char>|
            spec_messages_query(limit) == pre + " ORDER BY created_at DESC, rowid DESC LIMIT "@
                + spec_decimal(n as nat),
        limit is None ==> exists|pre: Seq<char>|
            spec_messages_query(limit) == pre + " ORDER BY created_at ASC"@,
{
    let q = spec_messages_query(limit);
    let h = message_columns_head();
    let t = message_columns_tail();
    reveal_strlit("SELECT id, conversation_id, role, status, content, reasoning, error, model,");
    reveal_strlit("created_at, updated_at, prompt_tokens, completion_tokens, total_tokens");
    match limit {
        Some(n) => {
            let l = "SELECT id, conversation_id, role, status, content, reasoning, error, model,created_at, updated_at, prompt_tokens, completion_tokens, total_tokens FROM messages WHERE conversation_id = ?1 ORDER BY created_at DESC, rowid DESC LIMIT "@;
            reveal_strlit("SELECT id, conversation_id, role, status, content, reasoning, error, model,created_at, updated_at, prompt_tokens, completion_tokens, total_tokens FROM messages WHERE conversation_id = ?1 ORDER BY created_at DESC, rowid DESC LIMIT ");
            reveal_strlit(" ORDER BY created_at DESC, rowid DESC LIMIT ");
            assert(q == l + spec_decimal(n as nat));
            assert(q.take(h.len() as int) =~= h);
            assert(q.subrange(h.len() + 0int, h.len() + 0int + t.len()) =~= t);
            let tail = " ORDER BY created_at DESC, rowid DESC LIMIT "@;
            let pre = l.take(l.len() - tail.len());
            assert(l =~= pre + tail);
            assert(q == pre + tail + spec_decimal(n as nat));
        },
        None => {
            reveal_strlit("SELECT id, conversation_id, role, status, content, reasoning, error, model,
                      created_at, updated_at, prompt_tokens, completion_tokens, total_tokens
               FROM messages WHERE conversation_id = ?1 ORDER BY created_at ASC");
            let w = 23int;
            assert(q.take(h.len() as int) =~= h);
            assert(forall|k: int| h.len() <= k < h.len() + w ==> sql_space(#[trigger] q[k]));
            assert(q.subrange(h.len() + w, h.len() + w + t.len()) =~= t);
            reveal_strlit(" ORDER BY created_at ASC");
            let tail = " ORDER BY created_at ASC"@;
            let pre = q.take(q.len() - tail.len());
            assert(q =~= pre + tail);
        },
    }
}

/// Puts the rows of a message query in conversation order: a limited query
/// reads newest first, so its rows are reversed.
pub fn messages_in_order(rows: Vec<MessageRow>, limited: bool) -> (r: Vec<MessageRow>)
    ensures
        r@ == (if limited {
            rows@.reverse()
        } else {
            rows@
        }),
{
    if !limited {
        return rows;
    }
    let ghost orig = rows@;
    let mut rest = rows;
    let mut out: Vec<MessageRow> = Vec::new();
    while rest.len() > 0
        invariant
            orig.len() == out@.len() + rest@.len(),
            rest@ == orig.take(rest@.len() as int),
            out@ == orig.skip(rest@.len() as int).reverse(),
        decreases rest@.len(),
    {
        let ghost k = rest@.len();
        let x = rest.pop().unwrap();
        assert(x == orig[k - 1]);
        out.push(x);
        assert(rest@ =~= orig.take(k - 1));
        assert(out@ =~= orig.skip(k - 1).reverse());
    }
    assert(orig.skip(0) =~= orig);
    out
}

/// A skill disabled everywhere.
#[derive(Debug, Clone)]
pub struct DisabledSkillRow {
    pub skill_name: String,
    /// unix ms
    pub disabled_at: i64,
}

/// The activation of a skill in one conversation.
#[derive(Debug, Clone)]
pub struct ConversationSkillRow {
    pub conversation_id: String,
    pub skill_name: String,
    /// "builtin" | "imported" | "external-readonly" | "project"
    pub source: String,
    pub enabled: bool,
    pub activated_at: i64,
}

} // verus!
