use llm_playground::session::Directive;
use llm_playground::session::StreamEvent;
use llm_playground::session::StreamingSession;
use llm_playground::settings::Provider;

fn openai_payload(text: &str) -> String {
    format!("{{\"choices\":[{{\"delta\":{{\"content\":\"{}\"}}}}]}}", text)
}

#[test]
fn tokens_accumulate_in_arrival_order() {
    let mut s = StreamingSession::start(Provider::OpenAI, "Hi".to_string());
    assert!(s.is_streaming());
    assert_eq!(s.on_event(StreamEvent::Opened), Directive::Continue);
    assert_eq!(s.on_event(StreamEvent::Message(openai_payload("He"))), Directive::Continue);
    assert_eq!(s.on_event(StreamEvent::Message(openai_payload("llo"))), Directive::Continue);
    assert_eq!(s.tokens().clone(), vec!["He".to_string(), "llo".to_string()]);
    assert_eq!(s.on_event(StreamEvent::EndOfStream), Directive::Close);
    assert!(!s.is_streaming());
    assert_eq!(s.accumulated_text(), "Hello");
    assert_eq!(s.error_text(), None);
}

#[test]
fn anthropic_session_reads_its_own_path() {
    let mut s = StreamingSession::start(Provider::Anthropic, "Hi".to_string());
    let payload = "{\"delta\":{\"text\":\"Hey\"}}".to_string();
    assert_eq!(s.on_event(StreamEvent::Message(payload)), Directive::Continue);
    assert_eq!(s.accumulated_text(), "Hey");
}

#[test]
fn malformed_payload_is_skipped_not_fatal() {
    let mut s = StreamingSession::start(Provider::OpenAI, "Hi".to_string());
    assert_eq!(s.on_event(StreamEvent::Message("garbage".to_string())), Directive::Continue);
    assert_eq!(s.on_event(StreamEvent::Message(openai_payload("ok"))), Directive::Continue);
    assert_eq!(s.on_event(StreamEvent::EndOfStream), Directive::Close);
    assert_eq!(s.accumulated_text(), "ok");
}

#[test]
fn cancellation_discards_the_next_event() {
    let mut s = StreamingSession::start(Provider::OpenAI, "Hi".to_string());
    s.cancel();
    s.cancel();
    assert_eq!(s.on_event(StreamEvent::Message(openai_payload("late"))), Directive::Close);
    assert!(!s.is_streaming());
    assert_eq!(s.tokens().len(), 0);
}

#[test]
fn cancellation_after_tokens_keeps_partial_buffer() {
    let mut s = StreamingSession::start(Provider::OpenAI, "Hi".to_string());
    assert_eq!(s.on_event(StreamEvent::Message(openai_payload("par"))), Directive::Continue);
    s.cancel();
    assert_eq!(s.on_event(StreamEvent::Message(openai_payload("tial"))), Directive::Close);
    assert_eq!(s.accumulated_text(), "par");
}

#[test]
fn transport_error_preserves_partial_buffer() {
    let mut s = StreamingSession::start(Provider::OpenAI, "Hi".to_string());
    assert_eq!(s.on_event(StreamEvent::Message(openai_payload("par"))), Directive::Continue);
    let d = s.on_event(StreamEvent::TransportError("connection reset".to_string()));
    assert_eq!(d, Directive::Close);
    assert!(!s.is_streaming());
    assert_eq!(s.error_text(), Some("connection reset".to_string()));
    assert_eq!(s.accumulated_text(), "par");
}
