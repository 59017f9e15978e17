//! The decisions of the interactive chat: what a typed line asks for, and
//! the texts that go to the model.

use vstd::prelude::*;
use crate::memory::{self, chat_lines};
use crate::models::ChatMessage;
use crate::text::{self, chars_of, chars_eq, join_chars, matches_at, slice_of, string_of, trimmed};

verus! {

/// What a typed line asks for.
pub enum ChatInput {
    /// End the chat.
    Exit,
    /// Set the current task.
    SetTask(String),
    /// Ask this question.
    Question(String),
}

/// The line, trimmed, is `exit`.
pub open spec fn is_exit(line: Seq<char>) -> bool {
    text::trim(line) == "exit"@
}

/// The line, trimmed, starts with `task:` (and is not `exit`).
pub open spec fn is_task(line: Seq<char>) -> bool {
    !is_exit(line) && text::starts_with(text::trim(line), "task:"@)
}

/// The task a `task:` line pins: what follows `task:`, trimmed.
pub open spec fn task_of(line: Seq<char>) -> Seq<char> {
    text::trim(text::trim(line).skip("task:"@.len() as int))
}

/// The task pinned after reading `line` when `task` was pinned before.
pub open spec fn next_task(task: Option<Seq<char>>, line: Seq<char>) -> Option<Seq<char>> {
    if is_task(line) {
        Some(task_of(line))
    } else {
        task
    }
}

/// The task pinned after reading `lines` in order, starting from `task`.
pub open spec fn task_after(task: Option<Seq<char>>, lines: Seq<Seq<char>>) -> Option<Seq<char>>
    decreases lines.len(),
{
    if lines.len() == 0 {
        task
    } else {
        next_task(task_after(task, lines.drop_last()), lines.last())
    }
}

/// The state of a chat: the pinned task, if any.
pub struct ChatSession {
    pub current_task: Option<String>,
}

impl ChatSession {
    /// A chat with no task pinned.
    pub fn new() -> (s: Self)
        ensures
            s.current_task is None,
    {
        ChatSession { current_task: None }
    }

    /// Reads one typed line. `exit` ends the chat; `task: ...` pins a task;
    /// anything else is a question. Only a `task:` line changes the state.
    pub fn handle_line(&mut self, line: &str) -> (r: ChatInput)
        ensures
            text::opt_string_view(final(self).current_task) == next_task(
                text::opt_string_view(old(self).current_task),
                line@,
            ),
            r is Exit <==> is_exit(line@),
            is_exit(line@) ==> r is Exit && final(self).current_task == old(self).current_task,
            is_task(line@) ==> (r matches ChatInput::SetTask(t) && t@ == task_of(line@)),
            is_task(line@) ==> (final(self).current_task matches Some(c) && c@ == task_of(line@)),
            !is_exit(line@) && !is_task(line@) ==> (r matches ChatInput::Question(q) && q@
                == text::trim(line@)),
            !is_exit(line@) && !is_task(line@) ==> final(self).current_task == old(
                self,
            ).current_task,
    {
        let msg = trimmed(chars_of(line).as_slice());
        if chars_eq(msg.as_slice(), chars_of("exit").as_slice()) {
            return ChatInput::Exit;
        }
        let prefix = chars_of("task:");
        assert(msg@.skip(0) =~= msg@);
        if matches_at(msg.as_slice(), 0, prefix.as_slice()) {
            let rest = slice_of(msg.as_slice(), prefix.len(), msg.len());
            assert(rest@ =~= msg@.skip(prefix@.len() as int));
            let task = trimmed(rest.as_slice());
            self.current_task = Some(string_of(task.as_slice()));
            return ChatInput::SetTask(string_of(task.as_slice()));
        }
        ChatInput::Question(string_of(msg.as_slice()))
    }
}

/// The conversation, oldest message first, one `role: text` line each,
/// from the recent messages given newest first.
pub fn conversation_history(recent: &Vec<ChatMessage>) -> (r: String)
    ensures
        r@ == text::join(memory::oldest_first(recent@), "\n"@),
{
    let lines = chat_lines(recent);
    join_chars(&lines, "\n")
}

/// What the model is asked: the context, then the question.
pub fn question_prompt(context: &str, question: &str) -> (r: String)
    ensures
        r@ == "Context:\n"@ + context@ + "\n\nQuestion: "@ + question@,
{
    let mut r = String::new();
    r.append("Context:\n");
    r.append(context);
    r.append("\n\nQuestion: ");
    r.append(question);
    r
}

} // verus!
