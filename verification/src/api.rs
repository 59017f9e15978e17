//! What is sent to the language-model API, and when a failed request is
//! retried.

use vstd::prelude::*;
use crate::error::AppError;
use crate::text::push_char;

verus! {

/// The model that answers.
pub const MODEL: &'static str = "llama-3.3-70b-versatile";

/// How many times a request is sent before giving up.
pub const MAX_RETRIES: u32 = 3;

/// How the assistant is told to behave when answering a question.
pub const ASSISTANT_PROMPT: &'static str = "You are Jarvis, a Rust code assistant. Stay focused on Rust and this project only. When there are cargo errors, analyze them and suggest exact fixes. Answer concisely in Thai.";

/// How the model is told to summarize a conversation.
pub const SUMMARY_PROMPT: &'static str = "Summarize the conversation below into a concise paragraph. Focus on: user's name, preferences, and technical topics discussed. Write in third person.";

/// One message of a request.
pub struct Message {
    pub role: String,
    pub content: String,
}

/// A chat-completion request.
pub struct ChatRequest {
    pub model: String,
    pub messages: Vec<Message>,
}

/// The role and text of each message.
pub open spec fn message_views(ms: Seq<Message>) -> Seq<(Seq<char>, Seq<char>)> {
    ms.map_values(|m: Message| (m.role@, m.content@))
}

fn message(role: &str, content: &str) -> (m: Message)
    ensures
        m.role@ == role@,
        m.content@ == content@,
{
    let mut r = String::new();
    r.append(role);
    let mut c = String::new();
    c.append(content);
    Message { role: r, content: c }
}

fn request(system: &str, user: &str) -> (r: ChatRequest)
    ensures
        r.model@ == MODEL@,
        message_views(r.messages@) == seq![("system"@, system@), ("user"@, user@)],
{
    let mut model = String::new();
    model.append(MODEL);
    let mut messages: Vec<Message> = Vec::new();
    messages.push(message("system", system));
    messages.push(message("user", user));
    assert(message_views(messages@) =~= seq![("system"@, system@), ("user"@, user@)]);
    ChatRequest { model, messages }
}

/// The request that asks the assistant `prompt`.
pub fn question_request(prompt: &str) -> (r: ChatRequest)
    ensures
        r.model@ == MODEL@,
        message_views(r.messages@) == seq![("system"@, ASSISTANT_PROMPT@), ("user"@, prompt@)],
{
    request(ASSISTANT_PROMPT, prompt)
}

/// The request that asks for a summary of `history`.
pub fn summary_request(history: &str) -> (r: ChatRequest)
    ensures
        r.model@ == MODEL@,
        message_views(r.messages@) == seq![("system"@, SUMMARY_PROMPT@), ("user"@, history@)],
{
    request(SUMMARY_PROMPT, history)
}

/// The decimal digit for `d` (below 10).
pub open spec fn digit_char(d: nat) -> char {
    ((d + 48) as u8) as char
}

/// The decimal notation of `n`.
pub open spec fn decimal(n: nat) -> Seq<char>
    decreases n,
{
    if n < 10 {
        seq![digit_char(n)]
    } else {
        decimal(n / 10).push(digit_char(n % 10))
    }
}

/// The decimal notation of `n`.
pub fn decimal_string(n: u32) -> (r: String)
    ensures
        r@ == decimal(n as nat),
    decreases n,
{
    if n < 10 {
        let mut r = String::new();
        push_char(&mut r, ((n as u8) + 48) as char);
        assert(r@ =~= decimal(n as nat));
        r
    } else {
        let mut r = decimal_string(n / 10);
        push_char(&mut r, (((n % 10) as u8) + 48) as char);
        r
    }
}

/// What came of sending a request once.
pub enum AttemptOutcome {
    /// The request could not be sent; the text says why.
    SendFailed(String),
    /// A reply came whose body could not be read; the text says why.
    BodyUnreadable(String),
    /// A reply came with a status other than success.
    Rejected { status: String, body: String },
    /// A reply came with a success status and this body.
    Accepted(String),
}

/// What to do next.
pub enum RetryAction {
    /// Show the notice, wait this many seconds, and send again if attempts
    /// are left.
    Wait { seconds: u64, notice: String },
    /// Read the reply from this body.
    Parse(String),
    /// Give up with this error.
    Fail(AppError),
}

/// The retry state of one request: the number of the next attempt and the
/// error of the last failed one.
pub struct RetryState {
    pub attempt: u32,
    pub last_error: String,
}

/// The error recorded for an attempt that failed.
pub open spec fn failure_text(outcome: AttemptOutcome) -> Seq<char> {
    match outcome {
        AttemptOutcome::SendFailed(e) => "Request failed: "@ + e@,
        AttemptOutcome::Rejected { status, body } => "Groq API Error ("@ + status@ + "): "@
            + body@,
        _ => Seq::empty(),
    }
}

/// The notice shown for a failed attempt.
pub open spec fn failure_notice(attempt: nat, outcome: AttemptOutcome) -> Seq<char> {
    let head = "⚠️ Attempt "@ + decimal(attempt) + "/"@ + decimal(MAX_RETRIES as nat);
    match outcome {
        AttemptOutcome::SendFailed(_) => head + " failed: "@ + failure_text(outcome),
        _ => head + ": "@ + failure_text(outcome),
    }
}

impl RetryState {
    /// Before the first attempt.
    pub fn new() -> (s: Self)
        ensures
            s.attempt == 1,
            s.last_error@ == Seq::<char>::empty(),
    {
        RetryState { attempt: 1, last_error: String::new() }
    }

    /// Whether another attempt may be made.
    pub fn may_attempt(&self) -> (r: bool)
        ensures
            r == (self.attempt <= MAX_RETRIES),
    {
        self.attempt <= MAX_RETRIES
    }

    /// Records what came of the current attempt and says what to do next. A
    /// failed send or a rejected reply is recorded as the last error and
    /// waited on for as many seconds as the attempt's number; an unreadable
    /// body gives up at once; an accepted reply is read.
    pub fn record(&mut self, outcome: AttemptOutcome) -> (a: RetryAction)
        requires
            old(self).attempt <= MAX_RETRIES,
        ensures
            match outcome {
                AttemptOutcome::SendFailed(_) | AttemptOutcome::Rejected { .. } => {
                    &&& final(self).attempt == old(self).attempt + 1
                    &&& final(self).last_error@ == failure_text(outcome)
                    &&& a matches RetryAction::Wait { seconds, notice } && seconds == old(
                        self,
                    ).attempt && notice@ == failure_notice(old(self).attempt as nat, outcome)
                },
                AttemptOutcome::BodyUnreadable(e) => {
                    &&& *final(self) == *old(self)
                    &&& a matches RetryAction::Fail(AppError::ApiError(m)) && m@ == e@
                },
                AttemptOutcome::Accepted(body) => {
                    &&& *final(self) == *old(self)
                    &&& a matches RetryAction::Parse(b) && b@ == body@
                },
            },
    {
        match outcome {
            AttemptOutcome::SendFailed(e) => {
                let mut err = String::new();
                err.append("Request failed: ");
                err.append(e.as_str());
                let notice = self.notice(" failed: ", &err);
                let seconds = self.attempt as u64;
                self.last_error = err;
                self.attempt = self.attempt + 1;
                RetryAction::Wait { seconds, notice }
            },
            AttemptOutcome::Rejected { status, body } => {
                let mut err = String::new();
                err.append("Groq API Error (");
                err.append(status.as_str());
                err.append("): ");
                err.append(body.as_str());
                let notice = self.notice(": ", &err);
                let seconds = self.attempt as u64;
                self.last_error = err;
                self.attempt = self.attempt + 1;
                RetryAction::Wait { seconds, notice }
            },
            AttemptOutcome::BodyUnreadable(e) => RetryAction::Fail(AppError::ApiError(e)),
            AttemptOutcome::Accepted(body) => RetryAction::Parse(body),
        }
    }

    fn notice(&self, sep: &str, err: &String) -> (r: String)
        ensures
            r@ == "⚠️ Attempt "@ + decimal(self.attempt as nat) + "/"@ + decimal(
                MAX_RETRIES as nat,
            ) + sep@ + err@,
    {
        let mut r = String::new();
        r.append("⚠️ Attempt ");
        r.append(decimal_string(self.attempt).as_str());
        r.append("/");
        r.append(decimal_string(MAX_RETRIES).as_str());
        r.append(sep);
        r.append(err.as_str());
        r
    }

    /// The error once every attempt has failed.
    pub fn exhausted(&self) -> (e: AppError)
        ensures
            e matches AppError::ApiError(m) && m@ == "All "@ + decimal(MAX_RETRIES as nat)
                + " retries failed. Last error: "@ + self.last_error@,
    {
        let mut m = String::new();
        m.append("All ");
        m.append(decimal_string(MAX_RETRIES).as_str());
        m.append(" retries failed. Last error: ");
        m.append(self.last_error.as_str());
        AppError::ApiError(m)
    }
}

/// The error for a reply body that is not the expected JSON.
pub fn parse_failure(detail: &str, body: &str) -> (e: AppError)
    ensures
        e matches AppError::ApiError(m) && m@ == "JSON Parse Error: "@ + detail@ + ". Response: "@
            + body@,
{
    let mut m = String::new();
    m.append("JSON Parse Error: ");
    m.append(detail);
    m.append(". Response: ");
    m.append(body);
    AppError::ApiError(m)
}

} // verus!
