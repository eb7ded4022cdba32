//! Conversations and their messages as the library reads them: the rows the
//! Chat tab's history list shows, and a character's queue of conversations
//! still owed to long-term memory.

use vstd::prelude::*;

use crate::text::{is_blank, is_blank_str};

verus! {

/// A conversation row as it is opened.
#[derive(Debug)]
pub struct Conversation {
    pub id: String,
}

/// One row of the Chat tab's history list. `title` is `None` until the
/// conversation has been named; `preview`, its opening line, stands in for
/// it until then, so a row is never blank.
#[derive(Debug)]
pub struct ConversationSummary {
    pub id: String,
    pub character_id: String,
    pub title: Option<String>,
    pub started_at: String,
    pub ended_at: Option<String>,
    pub message_count: i64,
    pub preview: String,
    /// Whether it has been summarized into the character's long-term
    /// memory.
    pub memorized: bool,
}

#[derive(Debug)]
pub struct Message {
    pub id: String,
    /// user|assistant
    pub role: String,
    pub text: String,
    pub created_at: String,
}

/// One entry of a character's memory queue.
#[derive(Debug, PartialEq, Eq)]
pub struct QueuedMemory {
    pub conversation_id: String,
    /// False for one still being written to, or whose end is still being
    /// processed. Nothing after it can be written yet.
    pub ended: bool,
}

/// Whether a stored title still leaves the conversation to be named: none
/// at all, or only whitespace.
pub open spec fn spec_is_untitled(title: Option<Seq<char>>) -> bool {
    match title {
        Some(t) => is_blank(t),
        None => true,
    }
}

/// Whether a conversation with `title` still needs a name. A hand-given
/// name counts as much as a generated one.
pub fn is_untitled(title: &Option<String>) -> (r: bool)
    ensures
        r == spec_is_untitled(
            match title {
                Some(t) => Some(t@),
                None => None,
            },
        ),
{
    match title {
        Some(t) => is_blank_str(t.as_str()),
        None => true,
    }
}

} // verus!
