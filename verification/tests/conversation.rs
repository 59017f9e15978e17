use brain::api::{
    decimal_string, parse_failure, question_request, summary_request, AttemptOutcome,
    RetryAction, RetryState, ASSISTANT_PROMPT, MAX_RETRIES, MODEL, SUMMARY_PROMPT,
};
use brain::chat::{conversation_history, question_prompt, ChatInput, ChatSession};
use brain::error::AppError;
use brain::models::ChatMessage;

fn msg(role: &str, content: &str) -> ChatMessage {
    ChatMessage { id: None, role: role.to_string(), content: content.to_string(), timestamp: None }
}

#[test]
fn typed_lines_are_classified() {
    let mut s = ChatSession::new();
    assert!(matches!(s.handle_line("  hello there \n"), ChatInput::Question(q) if q == "hello there"));
    assert!(s.current_task.is_none());
    assert!(matches!(s.handle_line("task:  refactor db \n"), ChatInput::SetTask(t) if t == "refactor db"));
    assert_eq!(s.current_task.as_deref(), Some("refactor db"));
    assert!(matches!(s.handle_line("why?"), ChatInput::Question(_)));
    assert_eq!(s.current_task.as_deref(), Some("refactor db"));
    assert!(matches!(s.handle_line(" exit\n"), ChatInput::Exit));
    assert_eq!(s.current_task.as_deref(), Some("refactor db"));
    assert!(matches!(s.handle_line("task:"), ChatInput::SetTask(t) if t.is_empty()));
    assert!(matches!(s.handle_line("Exit"), ChatInput::Question(q) if q == "Exit"));
}

#[test]
fn history_is_oldest_first() {
    let recent = vec![msg("assistant", "B"), msg("user", "A")];
    assert_eq!(conversation_history(&recent), "user: A\nassistant: B");
    assert_eq!(conversation_history(&Vec::new()), "");
}

#[test]
fn prompt_puts_context_before_question() {
    assert_eq!(question_prompt("CTX", "Q?"), "Context:\nCTX\n\nQuestion: Q?");
}

#[test]
fn requests_carry_model_and_prompts() {
    let r = question_request("hi");
    assert_eq!(r.model, MODEL);
    assert_eq!(r.messages.len(), 2);
    assert_eq!(r.messages[0].role, "system");
    assert_eq!(r.messages[0].content, ASSISTANT_PROMPT);
    assert_eq!(r.messages[1].role, "user");
    assert_eq!(r.messages[1].content, "hi");
    let s = summary_request("user: a");
    assert_eq!(s.messages[0].content, SUMMARY_PROMPT);
    assert_eq!(s.messages[1].content, "user: a");
    assert!(ASSISTANT_PROMPT.starts_with("You are Jarvis, a Rust code assistant. Stay focused"));
}

#[test]
fn decimal_notation() {
    assert_eq!(decimal_string(0), "0");
    assert_eq!(decimal_string(3), "3");
    assert_eq!(decimal_string(4294967295), "4294967295");
}

#[test]
fn failures_are_retried_with_growing_waits_then_given_up() {
    let mut st = RetryState::new();
    let mut waits = Vec::new();
    while st.may_attempt() {
        let outcome = if st.attempt == 2 {
            AttemptOutcome::Rejected { status: "429 Too Many Requests".to_string(), body: "slow down".to_string() }
        } else {
            AttemptOutcome::SendFailed("timeout".to_string())
        };
        match st.record(outcome) {
            RetryAction::Wait { seconds, notice } => waits.push((seconds, notice)),
            _ => panic!("a failure is waited on"),
        }
    }
    assert_eq!(MAX_RETRIES, 3);
    assert_eq!(waits.len(), 3);
    assert_eq!(waits[0], (1, "⚠️ Attempt 1/3 failed: Request failed: timeout".to_string()));
    assert_eq!(waits[1], (2, "⚠️ Attempt 2/3: Groq API Error (429 Too Many Requests): slow down".to_string()));
    assert_eq!(waits[2].0, 3);
    let AppError::ApiError(m) = st.exhausted();
    assert_eq!(m, "All 3 retries failed. Last error: Request failed: timeout");
}

#[test]
fn accepted_reply_is_read_and_unreadable_body_gives_up() {
    let mut st = RetryState::new();
    assert!(matches!(st.record(AttemptOutcome::Accepted("{}".to_string())), RetryAction::Parse(b) if b == "{}"));
    assert_eq!(st.attempt, 1);
    assert!(matches!(
        st.record(AttemptOutcome::BodyUnreadable("eof".to_string())),
        RetryAction::Fail(AppError::ApiError(m)) if m == "eof"
    ));
    let AppError::ApiError(m) = parse_failure("expected value", "oops");
    assert_eq!(m, "JSON Parse Error: expected value. Response: oops");
}
