//! The inference gateway: building the wire request, decoding the response
//! envelope, and the bounded-retry machine that decides, after each delivery
//! attempt, whether to back off and retry, to finish with text, or to give
//! up with `InferError::Unavailable`. A transport failure and a body that
//! does not decode both count as failed attempts under the retry policy;
//! the soft fallback is reserved for an envelope that decodes but carries
//! no usable text field — that is a degraded success, not an error.
//!
//! The HTTP round trip itself (and the backoff sleep) is the embedding
//! program's concern: it reports each attempt's outcome as a
//! `TransportEvent` and performs what `GatewayStep` tells it to.

use vstd::prelude::*;
use vstd::string::*;
use crate::text::{dec_digit, dec_spec, chars_to_string, push_dec, str_to_chars};

verus! {

/// Total delivery attempts allowed per call.
pub const MAX_ATTEMPTS: u64 = 3;

/// Milliseconds of backoff per completed attempt: the wait before attempt
/// `k + 1` is `k * RETRY_UNIT_MS`.
pub const RETRY_UNIT_MS: u64 = 500;

/// One inference request: model, prompt and an optional context-window
/// override. Streaming is always off for this use.
pub struct InferenceRequest {
    pub model: String,
    pub prompt: String,
    pub num_ctx: Option<u32>,
}

/// The typed response envelope: the text field the endpoint may return.
pub struct AIResponse {
    pub response: Option<String>,
}

/// The hexadecimal digit character for `d`.
pub open spec fn hex_digit(d: int) -> char {
    if d < 10 {
        dec_digit(d)
    } else if d == 10 {
        'a'
    } else if d == 11 {
        'b'
    } else if d == 12 {
        'c'
    } else if d == 13 {
        'd'
    } else if d == 14 {
        'e'
    } else {
        'f'
    }
}

/// The JSON string-escape of one character.
pub open spec fn esc_char(c: char) -> Seq<char> {
    if c == '"' {
        seq!['\\', '"']
    } else if c == '\\' {
        seq!['\\', '\\']
    } else if c == '\n' {
        seq!['\\', 'n']
    } else if c == '\r' {
        seq!['\\', 'r']
    } else if c == '\t' {
        seq!['\\', 't']
    } else if (c as u32) < 32 {
        seq!['\\', 'u', '0', '0', hex_digit((c as u32) as int / 16), hex_digit(
            (c as u32) as int % 16,
        )]
    } else {
        seq![c]
    }
}

/// The JSON string-escape of `s`.
pub open spec fn json_escaped(s: Seq<char>) -> Seq<char>
    decreases s.len(),
{
    if s.len() == 0 {
        Seq::empty()
    } else {
        esc_char(s[0]) + json_escaped(s.skip(1))
    }
}

fn hex_char(d: u32) -> (c: char)
    requires
        d < 16,
    ensures
        c == hex_digit(d as int),
{
    if d == 0 {
        '0'
    } else if d == 1 {
        '1'
    } else if d == 2 {
        '2'
    } else if d == 3 {
        '3'
    } else if d == 4 {
        '4'
    } else if d == 5 {
        '5'
    } else if d == 6 {
        '6'
    } else if d == 7 {
        '7'
    } else if d == 8 {
        '8'
    } else if d == 9 {
        '9'
    } else if d == 10 {
        'a'
    } else if d == 11 {
        'b'
    } else if d == 12 {
        'c'
    } else if d == 13 {
        'd'
    } else if d == 14 {
        'e'
    } else {
        'f'
    }
}

/// JSON-escapes the characters of `v`.
fn escape_chars(v: &Vec<char>) -> (r: Vec<char>)
    ensures
        r@ == json_escaped(v@),
{
    let n = v.len();
    let mut out: Vec<char> = Vec::new();
    let mut i: usize = 0;
    proof {
        assert(v@.skip(0) =~= v@);
    }
    while i < n
        invariant
            n == v@.len(),
            i <= n,
            json_escaped(v@) == out@ + json_escaped(v@.skip(i as int)),
        decreases n - i,
    {
        let ghost rest = v@.skip(i as int);
        let c = v[i];
        if c == '"' {
            out.push('\\');
            out.push('"');
        } else if c == '\\' {
            out.push('\\');
            out.push('\\');
        } else if c == '\n' {
            out.push('\\');
            out.push('n');
        } else if c == '\r' {
            out.push('\\');
            out.push('r');
        } else if c == '\t' {
            out.push('\\');
            out.push('t');
        } else if (c as u32) < 32 {
            out.push('\\');
            out.push('u');
            out.push('0');
            out.push('0');
            out.push(hex_char((c as u32) / 16));
            out.push(hex_char((c as u32) % 16));
        } else {
            out.push(c);
        }
        i += 1;
        proof {
            assert(rest[0] == c);
            assert(rest.skip(1) =~= v@.skip(i as int));
            assert(json_escaped(rest) =~= esc_char(c) + json_escaped(v@.skip(i as int)));
            assert(json_escaped(v@) =~= out@ + json_escaped(v@.skip(i as int)));
        }
    }
    proof {
        assert(v@.skip(n as int) =~= Seq::<char>::empty());
        assert(out@ =~= json_escaped(v@));
    }
    out
}

/// The wire body for a request: the JSON object the endpoint expects, with
/// `stream` always false and `options.num_ctx` present exactly when the
/// override is set.
pub open spec fn render_spec(model: Seq<char>, prompt: Seq<char>, num_ctx: Option<u32>) -> Seq<
    char,
> {
    "{\"model\":\""@ + json_escaped(model) + "\",\"prompt\":\""@ + json_escaped(prompt)
        + "\",\"stream\":false"@ + (match num_ctx {
        Some(n) => ",\"options\":{\"num_ctx\":"@ + dec_spec(n as int) + "}"@,
        None => Seq::<char>::empty(),
    }) + "}"@
}

/// Renders the request as its wire body.
pub fn render_request(req: &InferenceRequest) -> (r: String)
    ensures
        r@ == render_spec(req.model@, req.prompt@, req.num_ctx),
{
    let mut out: Vec<char> = Vec::new();
    let mut piece = str_to_chars("{\"model\":\"");
    out.append(&mut piece);
    let model_chars = str_to_chars(req.model.as_str());
    let mut escaped = escape_chars(&model_chars);
    out.append(&mut escaped);
    let mut piece2 = str_to_chars("\",\"prompt\":\"");
    out.append(&mut piece2);
    let prompt_chars = str_to_chars(req.prompt.as_str());
    let mut escaped2 = escape_chars(&prompt_chars);
    out.append(&mut escaped2);
    let mut piece3 = str_to_chars("\",\"stream\":false");
    out.append(&mut piece3);
    match req.num_ctx {
        Some(n) => {
            let mut piece4 = str_to_chars(",\"options\":{\"num_ctx\":");
            out.append(&mut piece4);
            push_dec(n as u64, &mut out);
            let mut piece5 = str_to_chars("}");
            out.append(&mut piece5);
        },
        None => {},
    }
    let mut piece6 = str_to_chars("}");
    out.append(&mut piece6);
    proof {
        assert(out@ =~= render_spec(req.model@, req.prompt@, req.num_ctx));
    }
    chars_to_string(&out)
}

/// Names what the envelope decode yields for a given body: `None` when the
/// body does not parse as JSON, else the optional `"response"` text field of
/// the parsed value. It depends on the body's characters alone.
pub uninterp spec fn envelope_decode(body: Seq<char>) -> Option<Option<Seq<char>>>;

/// Relies on `serde_json::from_str` to parse the envelope (`Err`, never a
/// panic, on malformed input); `Value::get` and `Value::as_str` only pick
/// the parsed value apart (one field, one variant). The decode is a
/// function of the body text alone.
#[verifier::external_body]
fn read_envelope(body: &str) -> (r: Option<AIResponse>)
    ensures
        r is Some <==> envelope_decode(body@) is Some,
        r matches Some(env) ==> (envelope_decode(body@) matches Some(field) && (env.response
            is Some <==> field is Some) && (env.response matches Some(t) ==> field == Some(
            t@,
        ))),
{
    match serde_json::from_str::<serde_json::Value>(body) {
        Ok(v) => {
            let text = v.get("response").and_then(|f| f.as_str());
            Some(AIResponse { response: text.map(|t| t.to_string()) })
        },
        Err(_) => None,
    }
}

/// The fixed text substituted when the envelope carries no usable field.
pub open spec fn fallback_text() -> Seq<char> {
    "No response"@
}

/// The reply resolved from a decoded envelope.
pub open spec fn resolved_text(env: Option<Seq<char>>) -> Seq<char> {
    match env {
        Some(t) => t,
        None => fallback_text(),
    }
}

/// Whether the resolved reply is the degraded fallback.
pub open spec fn resolved_degraded(env: Option<Seq<char>>) -> bool {
    env is None
}

/// A successful gateway outcome: the reply text, and whether it is the
/// degraded fallback substituted for a missing field (still a success, to be
/// kept apart from `InferError::Unavailable`).
pub struct InferOk {
    pub text: String,
    pub degraded: bool,
}

/// Applies the soft-fallback rule to a decoded envelope.
pub fn resolve_envelope(env: AIResponse) -> (r: InferOk)
    ensures
        env.response matches Some(t) ==> r.text == t && !r.degraded,
        env.response is None ==> r.text@ == fallback_text() && r.degraded,
{
    match env.response {
        Some(t) => InferOk { text: t, degraded: false },
        None => InferOk { text: "No response".to_owned(), degraded: true },
    }
}

/// The gateway's hard failure: every attempt exhausted; carries the last
/// underlying error's description.
pub enum InferError {
    Unavailable(String),
}

impl InferError {
    /// The user-facing description of this error.
    pub open spec fn message_spec(&self) -> Seq<char> {
        match self {
            InferError::Unavailable(e) => "AI service unavailable after 3 attempts. Last error: "@
                + e@,
        }
    }

    /// A human-readable description of this error.
    pub fn message(&self) -> (r: String)
        ensures
            r@ == self.message_spec(),
    {
        match self {
            InferError::Unavailable(e) => {
                let mut s = "AI service unavailable after 3 attempts. Last error: ".to_owned();
                s.append(e.as_str());
                s
            },
        }
    }
}

/// What one delivery attempt produced at the transport level: a failure to
/// reach the endpoint or read its response, with its description, or the
/// raw body of a response (whether that body decodes is judged here, not by
/// the caller).
pub enum TransportEvent {
    Failed(String),
    Delivered(String),
}

/// The failure description recorded when a delivered body does not decode
/// as the envelope.
pub open spec fn decode_failure_text() -> Seq<char> {
    "Invalid JSON response"@
}

/// Whether one attempt's outcome ends the call successfully: a delivered
/// body that decodes as the envelope. A transport failure, or a delivered
/// body that does not decode, counts as a failed attempt.
pub open spec fn attempt_succeeds(ev: TransportEvent) -> bool {
    match ev {
        TransportEvent::Delivered(body) => envelope_decode(body@) is Some,
        TransportEvent::Failed(_) => false,
    }
}

/// The description a failed attempt leaves behind: the transport error's own
/// text, or the fixed decode-failure text.
pub open spec fn attempt_failure_text(ev: TransportEvent) -> Seq<char> {
    match ev {
        TransportEvent::Failed(e) => e@,
        TransportEvent::Delivered(_) => decode_failure_text(),
    }
}

impl Clone for TransportEvent {
    fn clone(&self) -> (r: Self)
        ensures
            r == *self,
    {
        match self {
            TransportEvent::Failed(e) => TransportEvent::Failed(e.clone()),
            TransportEvent::Delivered(b) => TransportEvent::Delivered(b.clone()),
        }
    }
}

/// What the caller must do after reporting an attempt's outcome: wait
/// `delay_ms` and try again, or stop with the final result.
pub enum GatewayStep {
    Retry { delay_ms: u64 },
    Done(Result<InferOk, InferError>),
}

/// Tracks one inference call across its delivery attempts.
pub struct GatewaySession {
    done: u64,
}

impl GatewaySession {
    /// How many attempts have completed.
    pub closed spec fn attempts_made(&self) -> u64 {
        self.done
    }

    /// A session with no attempt made yet.
    pub fn new() -> (s: GatewaySession)
        ensures
            s.attempts_made() == 0,
    {
        GatewaySession { done: 0 }
    }

    /// How many attempts have completed.
    pub fn attempts(&self) -> (r: u64)
        ensures
            r == self.attempts_made(),
    {
        self.done
    }

    /// Decides what follows one attempt's outcome: a delivered body that
    /// decodes as the envelope ends the call with the resolved reply (the
    /// missing-field fallback included, still a success); a transport
    /// failure or an undecodable body counts as a failed attempt — a
    /// linear-backoff wait and another attempt below the attempt cap, and at
    /// the cap `InferError::Unavailable` carrying that failure's
    /// description.
    pub fn on_event(&mut self, ev: TransportEvent) -> (step: GatewayStep)
        requires
            old(self).attempts_made() < MAX_ATTEMPTS,
        ensures
            final(self).attempts_made() == old(self).attempts_made() + 1,
            ev matches TransportEvent::Delivered(body) ==> (envelope_decode(body@) matches Some(
                field,
            ) ==> (step matches GatewayStep::Done(Ok(ok)) && ok.text@ == resolved_text(field)
                && ok.degraded == resolved_degraded(field))),
            !attempt_succeeds(ev) ==> (if old(self).attempts_made() + 1 < MAX_ATTEMPTS {
                step matches GatewayStep::Retry { delay_ms } && delay_ms == (old(
                    self,
                ).attempts_made() + 1) * RETRY_UNIT_MS
            } else {
                step matches GatewayStep::Done(Err(InferError::Unavailable(msg))) && msg@
                    == attempt_failure_text(ev)
            }),
    {
        self.done = self.done + 1;
        match ev {
            TransportEvent::Delivered(body) => match read_envelope(body.as_str()) {
                Some(env) => GatewayStep::Done(Ok(resolve_envelope(env))),
                None => {
                    if self.done < MAX_ATTEMPTS {
                        GatewayStep::Retry { delay_ms: self.done * RETRY_UNIT_MS }
                    } else {
                        GatewayStep::Done(
                            Err(InferError::Unavailable("Invalid JSON response".to_owned())),
                        )
                    }
                },
            },
            TransportEvent::Failed(e) => {
                if self.done < MAX_ATTEMPTS {
                    GatewayStep::Retry { delay_ms: self.done * RETRY_UNIT_MS }
                } else {
                    GatewayStep::Done(Err(InferError::Unavailable(e)))
                }
            },
        }
    }
}

/// One full inference call as driven over a script of attempt outcomes: the
/// final result, how many attempts were made, and the backoff waits asked
/// for between them.
pub struct InferRun {
    pub result: Result<InferOk, InferError>,
    pub attempts: u64,
    pub waits: Vec<u64>,
}

/// Runs the retry machine over a script holding one outcome per attempt
/// (entries past the last attempt made are not consulted): attempts stop at
/// the first delivered body that decodes as the envelope, or with a hard
/// failure after `MAX_ATTEMPTS` failed attempts — transport failures and
/// undecodable bodies alike — with waits of `k * RETRY_UNIT_MS` after the
/// `k`-th failure.
pub fn run_infer(events: &Vec<TransportEvent>) -> (r: InferRun)
    requires
        events@.len() >= MAX_ATTEMPTS,
    ensures
        1 <= r.attempts <= MAX_ATTEMPTS,
        forall|k: int| 0 <= k < r.attempts - 1 ==> !attempt_succeeds(#[trigger] events@[k]),
        r.result is Ok <==> attempt_succeeds(events@[r.attempts - 1]),
        r.attempts < MAX_ATTEMPTS ==> attempt_succeeds(events@[r.attempts - 1]),
        events@[r.attempts - 1] matches TransportEvent::Delivered(body) ==> (envelope_decode(
            body@,
        ) matches Some(field) ==> (r.result matches Ok(ok) && ok.text@ == resolved_text(field)
            && ok.degraded == resolved_degraded(field))),
        !attempt_succeeds(events@[r.attempts - 1]) ==> (r.attempts == MAX_ATTEMPTS && (r.result
            matches Err(InferError::Unavailable(msg)) && msg@ == attempt_failure_text(
            events@[r.attempts - 1],
        ))),
        r.waits@ == Seq::new((r.attempts - 1) as nat, |j: int| ((j + 1) * RETRY_UNIT_MS as int) as u64),
{
    let mut session = GatewaySession::new();
    let mut waits: Vec<u64> = Vec::new();
    let mut idx: usize = 0;
    proof {
        assert(waits@ =~= Seq::new(0, |j: int| ((j + 1) * RETRY_UNIT_MS as int) as u64));
    }
    loop
        invariant
            session.attempts_made() == idx,
            idx < MAX_ATTEMPTS,
            events@.len() >= MAX_ATTEMPTS,
            forall|k: int| 0 <= k < idx ==> !attempt_succeeds(#[trigger] events@[k]),
            waits@ == Seq::new(idx as nat, |j: int| ((j + 1) * RETRY_UNIT_MS as int) as u64),
        decreases MAX_ATTEMPTS - idx,
    {
        let ev = events[idx].clone();
        let step = session.on_event(ev);
        match step {
            GatewayStep::Retry { delay_ms } => {
                waits.push(delay_ms);
                proof {
                    assert(waits@ =~= Seq::new(
                        (idx + 1) as nat,
                        |j: int| ((j + 1) * RETRY_UNIT_MS as int) as u64,
                    ));
                }
                idx += 1;
            },
            GatewayStep::Done(result) => {
                return InferRun { result, attempts: idx as u64 + 1, waits };
            },
        }
    }
}

} // verus!
