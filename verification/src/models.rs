//! The records the assistant stores: source files and chat messages.

use vstd::prelude::*;

verus! {

/// A scanned source file: its path, the hash of its cleaned text, and the
/// cleaned text itself.
#[derive(Debug, Clone)]
pub struct FileRecord {
    pub id: Option<i64>,
    pub path: String,
    pub hash: String,
    /// The text with comments and blank lines removed.
    pub content: String,
}

/// One message of the conversation history.
#[derive(Debug, Clone)]
pub struct ChatMessage {
    pub id: Option<i64>,
    /// "user" or "assistant".
    pub role: String,
    pub content: String,
    pub timestamp: Option<String>,
}

} // verus!
