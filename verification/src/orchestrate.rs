//! The request-scoped orchestrators: each gathers context (one message's
//! fields, or a bounded window of the whole store), sanitizes every
//! interpolated field, and builds the task's instruction prompt and request.
//! The interactive-chat path first routes the message: blank input is
//! declined, a pure greeting short-circuits to a locally computed reply
//! without any gateway call, everything else goes to inference.

use vstd::prelude::*;
use vstd::string::*;
use crate::gateway::InferenceRequest;
use crate::sanitize::{sanitize_chars, sanitize_spec};
use crate::store::{DbEmail, EmailModel, views};
use crate::text::{blank, chars_to_string, is_blank_str, lower_of, lowercase, str_eq,
    str_to_chars, trim_chars, trim_spec};
use crate::worker::{build_categorize_prompt, categorize_prompt_spec};

verus! {

/// The context-window override used for inbox-wide and single-message chat.
pub const CHAT_NUM_CTX: u32 = 8192;

/// Messages included in the inbox-wide chat context, at most.
pub const CONTEXT_WINDOW_MSGS: usize = 100;

/// The model every request names.
pub fn default_model() -> (r: String)
    ensures
        r@ == "llama3.1:latest"@,
{
    "llama3.1:latest".to_owned()
}

/// The summarization prompt over the sanitized message text.
pub open spec fn summary_prompt_spec(text: Seq<char>) -> Seq<char> {
    "Summarize this email concisely:\n\n"@ + sanitize_spec(text)
}

/// Builds the summarization prompt.
pub fn build_summary_prompt(text: &str) -> (r: String)
    ensures
        r@ == summary_prompt_spec(text@),
{
    let mut out: Vec<char> = str_to_chars("Summarize this email concisely:\n\n");
    let tv = str_to_chars(text);
    let mut ts = sanitize_chars(&tv);
    out.append(&mut ts);
    proof {
        assert(out@ =~= summary_prompt_spec(text@));
    }
    chars_to_string(&out)
}

/// The reply-drafting prompt over the sanitized original message. The
/// instruction asks for the bare reply text; stray conversational framing in
/// the model's output is degraded output, not an error.
pub open spec fn reply_prompt_spec(email_text: Seq<char>) -> Seq<char> {
    "You are an AI assistant tasked with writing a highly professional, concise reply to the following email. Do not include conversational filler like 'Here is your reply:' or 'Certainly!'. Draft only the final text of the response suitable for hitting send immediately.\n\nOriginal Email:\n"@
        + sanitize_spec(email_text)
}

/// Builds the reply-drafting prompt.
pub fn build_reply_prompt(email_text: &str) -> (r: String)
    ensures
        r@ == reply_prompt_spec(email_text@),
{
    let mut out: Vec<char> = str_to_chars(
        "You are an AI assistant tasked with writing a highly professional, concise reply to the following email. Do not include conversational filler like 'Here is your reply:' or 'Certainly!'. Draft only the final text of the response suitable for hitting send immediately.\n\nOriginal Email:\n",
    );
    let tv = str_to_chars(email_text);
    let mut ts = sanitize_chars(&tv);
    out.append(&mut ts);
    proof {
        assert(out@ =~= reply_prompt_spec(email_text@));
    }
    chars_to_string(&out)
}

/// The chat prompt: an already-built context block and the sanitized
/// question.
pub open spec fn chat_prompt_spec(question: Seq<char>, context: Seq<char>) -> Seq<char> {
    "You are an AI assistant helping with an email inbox. Using the following emails context, answer the user's question.\n\nContext:\n"@
        + context + "\n\nQuestion: "@ + sanitize_spec(question)
}

/// Builds the chat prompt.
pub fn build_chat_prompt(question: &str, context: &str) -> (r: String)
    ensures
        r@ == chat_prompt_spec(question@, context@),
{
    let mut out: Vec<char> = str_to_chars(
        "You are an AI assistant helping with an email inbox. Using the following emails context, answer the user's question.\n\nContext:\n",
    );
    let mut cv = str_to_chars(context);
    out.append(&mut cv);
    let mut mid = str_to_chars("\n\nQuestion: ");
    out.append(&mut mid);
    let qv = str_to_chars(question);
    let mut qs = sanitize_chars(&qv);
    out.append(&mut qs);
    proof {
        assert(out@ =~= chat_prompt_spec(question@, context@));
    }
    chars_to_string(&out)
}

/// The context block for chatting about one message: its sanitized sender,
/// subject and body.
pub open spec fn email_context_spec(
    sender: Seq<char>,
    subject: Seq<char>,
    body: Seq<char>,
) -> Seq<char> {
    "From: "@ + sanitize_spec(sender) + "\nSubject: "@ + sanitize_spec(subject) + "\nBody: "@
        + sanitize_spec(body) + "\n"@
}

/// Builds the single-message context block.
pub fn build_email_context(sender: &str, subject: &str, body: &str) -> (r: String)
    ensures
        r@ == email_context_spec(sender@, subject@, body@),
{
    let mut out: Vec<char> = str_to_chars("From: ");
    let sv = str_to_chars(sender);
    let mut ss = sanitize_chars(&sv);
    out.append(&mut ss);
    let mut m1 = str_to_chars("\nSubject: ");
    out.append(&mut m1);
    let uv = str_to_chars(subject);
    let mut us = sanitize_chars(&uv);
    out.append(&mut us);
    let mut m2 = str_to_chars("\nBody: ");
    out.append(&mut m2);
    let bv = str_to_chars(body);
    let mut bs = sanitize_chars(&bv);
    out.append(&mut bs);
    let mut m3 = str_to_chars("\n");
    out.append(&mut m3);
    proof {
        assert(out@ =~= email_context_spec(sender@, subject@, body@));
    }
    chars_to_string(&out)
}

/// One message's block in the inbox-wide context.
pub open spec fn inbox_block_spec(m: EmailModel) -> Seq<char> {
    "From: "@ + sanitize_spec(m.sender) + ", Subject: "@ + sanitize_spec(m.subject) + "\nBody: "@
        + sanitize_spec(m.body) + "\n\n"@
}

/// The inbox-wide context over the first `upto` messages.
pub open spec fn inbox_context_spec(emails: Seq<EmailModel>, upto: int) -> Seq<char>
    decreases upto,
{
    if upto <= 0 {
        Seq::empty()
    } else {
        inbox_context_spec(emails, upto - 1) + inbox_block_spec(emails[upto - 1])
    }
}

/// How many messages the inbox-wide context takes: the first
/// `CONTEXT_WINDOW_MSGS`, or all of them when fewer.
pub open spec fn window_len(emails: Seq<EmailModel>) -> int {
    if emails.len() <= CONTEXT_WINDOW_MSGS {
        emails.len() as int
    } else {
        CONTEXT_WINDOW_MSGS as int
    }
}

/// Builds the inbox-wide context: one block per message, over at most the
/// first `CONTEXT_WINDOW_MSGS` messages, every field sanitized.
pub fn build_inbox_context(emails: &Vec<DbEmail>) -> (r: String)
    ensures
        r@ == inbox_context_spec(views(emails@), window_len(views(emails@))),
{
    let ghost ms = views(emails@);
    let total = emails.len();
    let cap = if total <= CONTEXT_WINDOW_MSGS {
        total
    } else {
        CONTEXT_WINDOW_MSGS
    };
    let mut out: Vec<char> = Vec::new();
    let mut i: usize = 0;
    while i < cap
        invariant
            ms == views(emails@),
            cap == window_len(ms),
            cap <= emails@.len(),
            emails@.len() == ms.len(),
            i <= cap,
            out@ == inbox_context_spec(ms, i as int),
        decreases cap - i,
    {
        let e = &emails[i];
        let mut p1 = str_to_chars("From: ");
        out.append(&mut p1);
        let sv = str_to_chars(e.sender.as_str());
        let mut ss = sanitize_chars(&sv);
        out.append(&mut ss);
        let mut p2 = str_to_chars(", Subject: ");
        out.append(&mut p2);
        let uv = str_to_chars(e.subject.as_str());
        let mut us = sanitize_chars(&uv);
        out.append(&mut us);
        let mut p3 = str_to_chars("\nBody: ");
        out.append(&mut p3);
        let bv = str_to_chars(e.body.as_str());
        let mut bs = sanitize_chars(&bv);
        out.append(&mut bs);
        let mut p4 = str_to_chars("\n\n");
        out.append(&mut p4);
        proof {
            assert(ms[i as int] == emails@[i as int]@);
            assert(out@ =~= inbox_context_spec(ms, i + 1));
        }
        i += 1;
    }
    chars_to_string(&out)
}

/// The summarization request for one message text.
pub fn summary_request(text: &str) -> (r: InferenceRequest)
    ensures
        r.model@ == "llama3.1:latest"@,
        r.prompt@ == summary_prompt_spec(text@),
        r.num_ctx is None,
{
    InferenceRequest { model: default_model(), prompt: build_summary_prompt(text), num_ctx: None }
}

/// The reply-drafting request for one original message.
pub fn reply_request(email_text: &str) -> (r: InferenceRequest)
    ensures
        r.model@ == "llama3.1:latest"@,
        r.prompt@ == reply_prompt_spec(email_text@),
        r.num_ctx is None,
{
    InferenceRequest {
        model: default_model(),
        prompt: build_reply_prompt(email_text),
        num_ctx: None,
    }
}

/// The chat request for a question over a built context, with the widened
/// context window.
pub fn chat_request(question: &str, context: &str) -> (r: InferenceRequest)
    ensures
        r.model@ == "llama3.1:latest"@,
        r.prompt@ == chat_prompt_spec(question@, context@),
        r.num_ctx == Some(CHAT_NUM_CTX),
{
    InferenceRequest {
        model: default_model(),
        prompt: build_chat_prompt(question, context),
        num_ctx: Some(CHAT_NUM_CTX),
    }
}

/// The categorization request for one message.
pub fn categorize_request(subject: &str, body: &str) -> (r: InferenceRequest)
    ensures
        r.model@ == "llama3.1:latest"@,
        r.prompt@ == categorize_prompt_spec(subject@, body@),
        r.num_ctx is None,
{
    InferenceRequest {
        model: default_model(),
        prompt: build_categorize_prompt(subject, body),
        num_ctx: None,
    }
}

/// Malformed input declined at the orchestration boundary.
pub enum ValidationError {
    EmptyInput,
}

impl ValidationError {
    /// The user-facing description of this error.
    pub open spec fn message_spec(&self) -> Seq<char> {
        "Please enter a message."@
    }

    /// A human-readable description of this error.
    pub fn message(&self) -> (r: String)
        ensures
            r@ == self.message_spec(),
    {
        "Please enter a message.".to_owned()
    }
}

/// The fixed phrases that count as a pure greeting, after trimming and
/// lowercasing.
pub open spec fn is_greeting_phrase(s: Seq<char>) -> bool {
    s == "hi"@ || s == "hello"@ || s == "hey"@ || s == "good morning"@ || s == "good evening"@
        || s == "greetings"@ || s == "hi!"@ || s == "hello!"@ || s == "hey!"@
}

/// How an interactive chat message is routed.
#[derive(Clone, Copy, Debug, PartialEq, Eq, Structural)]
pub enum ChatRoute {
    /// Blank input: declined, no work submitted.
    Rejected,
    /// A pure greeting: answered locally and synchronously, the gateway is
    /// never invoked and no loading indicator is raised.
    Greeting,
    /// Everything else goes to inference.
    Infer,
}

/// The routing rule: blank input is rejected; a message whose trimmed,
/// lowercased form is one of the fixed phrases greets locally; all else is
/// inference.
pub open spec fn chat_route_spec(msg: Seq<char>) -> ChatRoute {
    if blank(msg) {
        ChatRoute::Rejected
    } else if is_greeting_phrase(lower_of(trim_spec(msg))) {
        ChatRoute::Greeting
    } else {
        ChatRoute::Infer
    }
}

fn is_greeting_str(s: &String) -> (r: bool)
    ensures
        r == is_greeting_phrase(s@),
{
    str_eq(s.as_str(), "hi") || str_eq(s.as_str(), "hello") || str_eq(s.as_str(), "hey")
        || str_eq(s.as_str(), "good morning") || str_eq(s.as_str(), "good evening") || str_eq(
        s.as_str(),
        "greetings",
    ) || str_eq(s.as_str(), "hi!") || str_eq(s.as_str(), "hello!") || str_eq(s.as_str(), "hey!")
}

/// Routes one interactive chat message.
pub fn chat_preflight(message: &str) -> (r: ChatRoute)
    ensures
        r == chat_route_spec(message@),
{
    if is_blank_str(message) {
        return ChatRoute::Rejected;
    }
    let mc = str_to_chars(message);
    let trimmed = trim_chars(&mc);
    let ts = chars_to_string(&trimmed);
    let low = lowercase(ts.as_str());
    if is_greeting_str(&low) {
        ChatRoute::Greeting
    } else {
        ChatRoute::Infer
    }
}

/// The day part of the local greeting for an hour of the day.
pub open spec fn day_part_spec(hour: u32) -> Seq<char> {
    if hour < 12 {
        "Good morning"@
    } else if hour < 17 {
        "Good afternoon"@
    } else {
        "Good evening"@
    }
}

/// The locally computed greeting reply.
pub open spec fn greeting_spec(hour: u32) -> Seq<char> {
    "Hello! "@ + day_part_spec(hour) + ", how may I help you today?"@
}

/// The greeting reply for the given hour of day (0–23 as a clock reports
/// it; any larger value counts as evening).
pub fn greeting_message(hour: u32) -> (r: String)
    ensures
        r@ == greeting_spec(hour),
{
    let mut s = "Hello! ".to_owned();
    if hour < 12 {
        s.append("Good morning");
    } else if hour < 17 {
        s.append("Good afternoon");
    } else {
        s.append("Good evening");
    }
    s.append(", how may I help you today?");
    s
}

} // verus!
