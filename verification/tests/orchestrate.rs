use neural_mail::orchestrate::{
    ChatRoute, ValidationError, build_chat_prompt, build_email_context, build_inbox_context,
    build_reply_prompt, build_summary_prompt, chat_preflight, chat_request, greeting_message,
    reply_request, summary_request,
};
use neural_mail::store::{Category, DbEmail};

#[test]
fn greetings_short_circuit() {
    assert_eq!(chat_preflight("hi"), ChatRoute::Greeting);
    assert_eq!(chat_preflight("Hello!"), ChatRoute::Greeting);
    assert_eq!(chat_preflight("  hey  "), ChatRoute::Greeting);
    assert_eq!(chat_preflight("GOOD MORNING"), ChatRoute::Greeting);
}

#[test]
fn greeting_trim_covers_unicode_whitespace() {
    assert_eq!(chat_preflight("\u{2003}hey\u{2003}"), ChatRoute::Greeting);
    assert_eq!(chat_preflight("\u{a0}hi\u{a0}"), ChatRoute::Greeting);
}

#[test]
fn near_greetings_go_to_inference() {
    assert_eq!(chat_preflight("hi there"), ChatRoute::Infer);
    assert_eq!(chat_preflight("hello?"), ChatRoute::Infer);
    assert_eq!(chat_preflight("what is in my inbox"), ChatRoute::Infer);
}

#[test]
fn blank_chat_input_is_rejected() {
    assert_eq!(chat_preflight(""), ChatRoute::Rejected);
    assert_eq!(chat_preflight("   "), ChatRoute::Rejected);
    assert_eq!(ValidationError::EmptyInput.message(), "Please enter a message.");
}

#[test]
fn greeting_text_follows_the_clock() {
    assert_eq!(
        greeting_message(8),
        "Hello! Good morning, how may I help you today?"
    );
    assert_eq!(
        greeting_message(13),
        "Hello! Good afternoon, how may I help you today?"
    );
    assert_eq!(
        greeting_message(20),
        "Hello! Good evening, how may I help you today?"
    );
    assert_eq!(
        greeting_message(0),
        "Hello! Good morning, how may I help you today?"
    );
}

#[test]
fn summary_prompt_embeds_sanitized_text() {
    assert_eq!(
        build_summary_prompt("note {x}"),
        "Summarize this email concisely:\n\nnote (x)"
    );
}

#[test]
fn reply_prompt_embeds_original() {
    let p = build_reply_prompt("Please review [draft]");
    assert!(p.starts_with("You are an AI assistant tasked with writing a highly professional"));
    assert!(p.ends_with("Original Email:\nPlease review (draft)"));
}

#[test]
fn chat_prompt_holds_context_and_question() {
    let p = build_chat_prompt("what {is} new", "CTX");
    assert_eq!(
        p,
        "You are an AI assistant helping with an email inbox. Using the following emails context, answer the user's question.\n\nContext:\nCTX\n\nQuestion: what (is) new"
    );
}

#[test]
fn email_context_sanitizes_each_field() {
    assert_eq!(
        build_email_context("a{b}", "[s]", "body---text"),
        "From: a(b)\nSubject: (s)\nBody: body - text\n"
    );
}

#[test]
fn inbox_context_concatenates_blocks() {
    let emails = vec![
        DbEmail {
            id: 1,
            subject: "S1".to_string(),
            sender: "a@x".to_string(),
            date: "1m ago".to_string(),
            body: "B1".to_string(),
            has_attachment: false,
            category: Category::Inbox,
        },
        DbEmail {
            id: 2,
            subject: "S{2}".to_string(),
            sender: "b@x".to_string(),
            date: "2m ago".to_string(),
            body: "B2".to_string(),
            has_attachment: true,
            category: Category::Work,
        },
    ];
    assert_eq!(
        build_inbox_context(&emails),
        "From: a@x, Subject: S1\nBody: B1\n\nFrom: b@x, Subject: S(2)\nBody: B2\n\n"
    );
}

#[test]
fn inbox_context_caps_at_one_hundred_messages() {
    let mut emails = Vec::new();
    for id in 1..=120 {
        emails.push(DbEmail {
            id,
            subject: "S".to_string(),
            sender: "a@x".to_string(),
            date: "now".to_string(),
            body: "B".to_string(),
            has_attachment: false,
            category: Category::Inbox,
        });
    }
    let ctx = build_inbox_context(&emails);
    assert_eq!(ctx.matches("From: ").count(), 100);
}

#[test]
fn requests_carry_model_and_window() {
    let r = chat_request("q", "ctx");
    assert_eq!(r.model, "llama3.1:latest");
    assert_eq!(r.num_ctx, Some(8192));
    let s = summary_request("text");
    assert_eq!(s.model, "llama3.1:latest");
    assert_eq!(s.num_ctx, None);
    let p = reply_request("text");
    assert_eq!(p.num_ctx, None);
}
