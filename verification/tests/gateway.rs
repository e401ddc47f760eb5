use neural_mail::gateway::{
    GatewaySession, GatewayStep, InferError, InferenceRequest, TransportEvent, render_request,
    run_infer,
};

#[test]
fn render_request_without_override() {
    let req = InferenceRequest {
        model: "llama3.1:latest".to_string(),
        prompt: "Hello".to_string(),
        num_ctx: None,
    };
    assert_eq!(
        render_request(&req),
        "{\"model\":\"llama3.1:latest\",\"prompt\":\"Hello\",\"stream\":false}"
    );
}

#[test]
fn render_request_with_override() {
    let req = InferenceRequest {
        model: "llama3.1:latest".to_string(),
        prompt: "Q".to_string(),
        num_ctx: Some(8192),
    };
    assert_eq!(
        render_request(&req),
        "{\"model\":\"llama3.1:latest\",\"prompt\":\"Q\",\"stream\":false,\"options\":{\"num_ctx\":8192}}"
    );
}

#[test]
fn render_request_escapes_prompt() {
    let req = InferenceRequest {
        model: "m".to_string(),
        prompt: "say \"hi\"\nback\\slash\ttab\u{1}ctl".to_string(),
        num_ctx: None,
    };
    assert_eq!(
        render_request(&req),
        "{\"model\":\"m\",\"prompt\":\"say \\\"hi\\\"\\nback\\\\slash\\ttab\\u0001ctl\",\"stream\":false}"
    );
}

#[test]
fn delivered_body_yields_response_field() {
    let mut session = GatewaySession::new();
    let step = session.on_event(TransportEvent::Delivered(
        "{\"response\":\"All good\"}".to_string(),
    ));
    match step {
        GatewayStep::Done(Ok(ok)) => {
            assert_eq!(ok.text, "All good");
            assert!(!ok.degraded);
        }
        _ => panic!("expected a finished successful step"),
    }
    assert_eq!(session.attempts(), 1);
}

#[test]
fn missing_field_is_soft_fallback_not_error() {
    let mut session = GatewaySession::new();
    let step = session.on_event(TransportEvent::Delivered("{\"done\":true}".to_string()));
    match step {
        GatewayStep::Done(Ok(ok)) => {
            assert_eq!(ok.text, "No response");
            assert!(ok.degraded);
        }
        _ => panic!("a reachable endpoint with no usable text is still a success"),
    }
}

#[test]
fn unparsable_body_counts_as_failed_attempt() {
    let mut session = GatewaySession::new();
    let step = session.on_event(TransportEvent::Delivered("not json at all".to_string()));
    assert!(matches!(step, GatewayStep::Retry { delay_ms: 500 }));
    assert_eq!(session.attempts(), 1);
}

#[test]
fn undecodable_bodies_exhaust_the_attempts() {
    let events = vec![
        TransportEvent::Delivered("<html>busy</html>".to_string()),
        TransportEvent::Failed("timed out".to_string()),
        TransportEvent::Delivered("still not json".to_string()),
    ];
    let run = run_infer(&events);
    assert_eq!(run.attempts, 3);
    assert_eq!(run.waits, vec![500, 1000]);
    match run.result {
        Err(InferError::Unavailable(last)) => assert_eq!(last, "Invalid JSON response"),
        Ok(_) => panic!("no attempt delivered a decodable envelope"),
    }
}

#[test]
fn decode_failure_is_retried_then_succeeds() {
    let events = vec![
        TransportEvent::Delivered("garbage".to_string()),
        TransportEvent::Delivered("{\"response\":\"recovered\"}".to_string()),
        TransportEvent::Failed("never consulted".to_string()),
    ];
    let run = run_infer(&events);
    assert_eq!(run.attempts, 2);
    assert_eq!(run.waits, vec![500]);
    match run.result {
        Ok(ok) => {
            assert_eq!(ok.text, "recovered");
            assert!(!ok.degraded);
        }
        Err(_) => panic!("the second attempt decoded"),
    }
}

#[test]
fn retry_twice_then_succeed() {
    let events = vec![
        TransportEvent::Failed("connection refused".to_string()),
        TransportEvent::Failed("timed out".to_string()),
        TransportEvent::Delivered("{\"response\":\"third time lucky\"}".to_string()),
    ];
    let run = run_infer(&events);
    assert_eq!(run.attempts, 3);
    assert_eq!(run.waits, vec![500, 1000]);
    match run.result {
        Ok(ok) => {
            assert_eq!(ok.text, "third time lucky");
            assert!(!ok.degraded);
        }
        Err(_) => panic!("the third attempt delivered"),
    }
}

#[test]
fn all_attempts_fail_is_unavailable_with_last_error() {
    let events = vec![
        TransportEvent::Failed("first".to_string()),
        TransportEvent::Failed("second".to_string()),
        TransportEvent::Failed("third".to_string()),
    ];
    let run = run_infer(&events);
    assert_eq!(run.attempts, 3);
    assert_eq!(run.waits, vec![500, 1000]);
    match run.result {
        Err(InferError::Unavailable(last)) => assert_eq!(last, "third"),
        Ok(_) => panic!("every attempt failed"),
    }
}

#[test]
fn immediate_success_makes_one_attempt() {
    let events = vec![
        TransportEvent::Delivered("{\"response\":\"at once\"}".to_string()),
        TransportEvent::Failed("never consulted".to_string()),
        TransportEvent::Failed("never consulted".to_string()),
    ];
    let run = run_infer(&events);
    assert_eq!(run.attempts, 1);
    assert!(run.waits.is_empty());
    match run.result {
        Ok(ok) => assert_eq!(ok.text, "at once"),
        Err(_) => panic!("the first attempt delivered"),
    }
}

#[test]
fn session_asks_linear_backoff() {
    let mut session = GatewaySession::new();
    let s1 = session.on_event(TransportEvent::Failed("a".to_string()));
    assert!(matches!(s1, GatewayStep::Retry { delay_ms: 500 }));
    let s2 = session.on_event(TransportEvent::Failed("b".to_string()));
    assert!(matches!(s2, GatewayStep::Retry { delay_ms: 1000 }));
    let s3 = session.on_event(TransportEvent::Failed("c".to_string()));
    match s3 {
        GatewayStep::Done(Err(InferError::Unavailable(last))) => assert_eq!(last, "c"),
        _ => panic!("the attempt cap is three"),
    }
    assert_eq!(session.attempts(), 3);
}

#[test]
fn unavailable_message_carries_description() {
    let e = InferError::Unavailable("connection refused".to_string());
    assert_eq!(
        e.message(),
        "AI service unavailable after 3 attempts. Last error: connection refused"
    );
}
