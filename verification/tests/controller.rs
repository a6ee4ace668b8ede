use llm_playground::controller::SessionController;
use llm_playground::controller::SubmitError;
use llm_playground::session::Directive;
use llm_playground::session::StreamEvent;
use llm_playground::settings::APIKey;
use llm_playground::settings::Provider;
use llm_playground::settings::Settings;

fn settings_with_key(provider: Provider) -> Settings {
    Settings {
        temperature_tenths: 10,
        max_tokens: 1024,
        model: "test-model".to_string(),
        api_key: Some(0),
        api_keys: vec![APIKey {
            name: "work".to_string(),
            key: "sk-test".to_string(),
            provider,
        }],
    }
}

fn openai_payload(text: &str) -> String {
    format!("{{\"choices\":[{{\"delta\":{{\"content\":\"{}\"}}}}]}}", text)
}

#[test]
fn end_to_end_hello_then_cancelled_submission() {
    let mut c = SessionController::new();
    let settings = settings_with_key(Provider::OpenAI);

    // first submission streams two deltas and completes
    let req = c.submit("Hi".to_string(), &settings).unwrap();
    assert!(c.is_streaming());
    assert!(req.body.contains("{\"role\":\"user\",\"content\":\"Hi\"}"));
    assert_eq!(c.on_event(StreamEvent::Opened), Directive::Continue);
    assert_eq!(c.on_event(StreamEvent::Message(openai_payload("He"))), Directive::Continue);
    assert_eq!(c.on_event(StreamEvent::Message(openai_payload("llo"))), Directive::Continue);
    assert_eq!(c.on_event(StreamEvent::EndOfStream), Directive::Close);
    assert!(c.next_exchange_id() < u64::MAX);
    assert!(c.finalize());
    assert_eq!(c.snapshot(), vec![("Hi".to_string(), "Hello".to_string())]);
    assert!(!c.is_streaming());
    assert!(!c.has_session());

    // second submission is cancelled before any delta arrives
    let second = c.submit("Again".to_string(), &settings);
    assert!(second.is_ok());
    c.cancel();
    assert_eq!(c.on_event(StreamEvent::Message(openai_payload("late"))), Directive::Close);
    assert!(!c.finalize());
    assert_eq!(c.snapshot(), vec![("Hi".to_string(), "Hello".to_string())]);
    assert!(!c.is_streaming());
}

#[test]
fn submit_while_streaming_is_rejected() {
    let mut c = SessionController::new();
    let settings = settings_with_key(Provider::OpenAI);
    assert!(c.submit("one".to_string(), &settings).is_ok());
    let again = c.submit("two".to_string(), &settings);
    assert!(matches!(again, Err(SubmitError::AlreadyStreaming)));
    // the running session is untouched: it still accepts events
    assert!(c.is_streaming());
    assert_eq!(c.on_event(StreamEvent::EndOfStream), Directive::Close);
    assert!(!c.finalize());
    assert_eq!(c.exchange_count(), 0);
}

#[test]
fn submit_without_key_is_a_configuration_error() {
    let mut c = SessionController::new();
    let mut settings = settings_with_key(Provider::OpenAI);
    settings.api_key = None;
    let r = c.submit("Hi".to_string(), &settings);
    assert!(matches!(r, Err(SubmitError::NoApiKey)));
    assert!(!c.has_session());
    assert_eq!(c.last_error(), Some(&"No key available.".to_string()));

    // an out-of-range selection is the same configuration error
    settings.api_key = Some(5);
    let r2 = c.submit("Hi".to_string(), &settings);
    assert!(matches!(r2, Err(SubmitError::NoApiKey)));
}

#[test]
fn transport_error_after_tokens_commits_partial_text() {
    let mut c = SessionController::new();
    let settings = settings_with_key(Provider::Anthropic);
    c.submit("Hi".to_string(), &settings).unwrap();
    let payload = "{\"delta\":{\"text\":\"par\"}}".to_string();
    assert_eq!(c.on_event(StreamEvent::Message(payload)), Directive::Continue);
    let d = c.on_event(StreamEvent::TransportError("boom".to_string()));
    assert_eq!(d, Directive::Close);
    assert_eq!(c.last_error(), Some(&"boom".to_string()));
    // salvage policy: the partial text is still committed
    assert!(c.finalize());
    assert_eq!(c.snapshot(), vec![("Hi".to_string(), "par".to_string())]);
}

#[test]
fn transport_error_before_tokens_commits_nothing() {
    let mut c = SessionController::new();
    let settings = settings_with_key(Provider::OpenAI);
    c.submit("Hi".to_string(), &settings).unwrap();
    assert_eq!(
        c.on_event(StreamEvent::TransportError("refused".to_string())),
        Directive::Close
    );
    assert!(!c.finalize());
    assert_eq!(c.exchange_count(), 0);
    assert_eq!(c.last_error(), Some(&"refused".to_string()));
}

#[test]
fn request_uses_snapshot_taken_at_submit_time() {
    let mut c = SessionController::new();
    let settings = settings_with_key(Provider::OpenAI);

    // commit one exchange first
    c.submit("q1".to_string(), &settings).unwrap();
    c.on_event(StreamEvent::Message(openai_payload("a1")));
    c.on_event(StreamEvent::EndOfStream);
    assert!(c.finalize());

    // the next request carries the committed history before the new prompt
    let req = c.submit("q2".to_string(), &settings).unwrap();
    let messages = "[{\"role\":\"user\",\"content\":\"q1\"},{\"role\":\"assistant\",\"content\":\"a1\"},{\"role\":\"user\",\"content\":\"q2\"}]";
    assert!(req.body.ends_with(&format!("\"messages\":{}}}", messages)));
    assert_eq!(req.url, "https://api.openai.com/v1/chat/completions");

    // editing the history now does not change the request already built
    c.edit(0, "edited".to_string(), "changed".to_string());
    assert!(req.body.contains("\"content\":\"q1\""));
    assert!(!req.body.contains("edited"));
}

#[test]
fn edits_and_deletes_keyed_by_id_during_stream() {
    let mut c = SessionController::new();
    let settings = settings_with_key(Provider::OpenAI);
    for (q, a) in [("q0", "a0"), ("q1", "a1"), ("q2", "a2")] {
        c.submit(q.to_string(), &settings).unwrap();
        c.on_event(StreamEvent::Message(openai_payload(a)));
        c.on_event(StreamEvent::EndOfStream);
        assert!(c.finalize());
    }
    // while a stream is in flight, earlier exchanges can be deleted and edited
    c.submit("q3".to_string(), &settings).unwrap();
    c.delete(1);
    c.edit(2, "Q2".to_string(), "A2".to_string());
    c.on_event(StreamEvent::Message(openai_payload("a3")));
    c.on_event(StreamEvent::EndOfStream);
    assert!(c.finalize());
    assert_eq!(
        c.snapshot(),
        vec![
            ("q0".to_string(), "a0".to_string()),
            ("Q2".to_string(), "A2".to_string()),
            ("q3".to_string(), "a3".to_string()),
        ]
    );
}

#[test]
fn clear_empties_history_and_restarts_ids() {
    let mut c = SessionController::new();
    let settings = settings_with_key(Provider::OpenAI);
    c.submit("q".to_string(), &settings).unwrap();
    c.on_event(StreamEvent::Message(openai_payload("a")));
    c.on_event(StreamEvent::EndOfStream);
    assert!(c.finalize());
    assert_eq!(c.exchange_count(), 1);
    c.clear();
    assert_eq!(c.exchange_count(), 0);
    assert_eq!(c.next_exchange_id(), 0);
}
