//! Conversations with a connection, as a client and a backend would lead them.
use serde_json::Value;
use tts_bridge::config::{Config, LogFormat};
use tts_bridge::frame::ServerFrame;
use tts_bridge::proxy::{Action, AudioEvent, BackendReply, ClientEvent, Connection};
use tts_bridge::session::SpeechRequest;

fn config(chunk_size: usize) -> Config {
    Config {
        backend_url: "http://127.0.0.1:9".to_string(),
        backend_api_key: None,
        default_model: "kokoro".to_string(),
        default_voice: "af_heart".to_string(),
        chunk_size,
        max_buffer_size: 5_242_880,
        port: 0,
        log_level: "debug".to_string(),
        log_format: LogFormat::Plain,
    }
}

fn object(members: &[(&str, &str)]) -> String {
    let mut o = serde_json::Map::new();
    for (name, value) in members {
        o.insert(name.to_string(), Value::from(*value));
    }
    Value::Object(o).to_string()
}

fn client_text(c: &mut Connection, config: &Config, text: &str) -> Vec<Action> {
    assert!(c.reads_client());
    c.on_client(config, ClientEvent::Text(text.to_string()))
}

fn the_request(actions: Vec<Action>) -> SpeechRequest {
    assert_eq!(actions.len(), 1);
    match actions.into_iter().next() {
        Some(Action::Request(request)) => request,
        _ => panic!("expected a request"),
    }
}

fn json_of(action: &Action) -> Value {
    match action {
        Action::Send(frame) => serde_json::from_str(&frame.text().expect("a JSON frame")).unwrap(),
        Action::Request(_) => panic!("expected a frame"),
    }
}

fn audio_of(action: &Action) -> Vec<u8> {
    match action {
        Action::Send(ServerFrame::Audio(bytes)) => bytes.clone(),
        _ => panic!("expected audio"),
    }
}

fn accept(c: &mut Connection) -> Value {
    let actions = c.on_reply(BackendReply::Answered { status: 200, error_body: None });
    assert_eq!(actions.len(), 1);
    json_of(&actions[0])
}

/// The backend of most conversations: four pieces of 100 bytes.
fn stream_four(c: &mut Connection, config: &Config) -> (Vec<Vec<u8>>, Value) {
    let mut frames = Vec::new();
    for i in 0..4 {
        for action in c.on_audio(config, AudioEvent::Bytes(vec![i as u8 + 1; 100])) {
            frames.push(audio_of(&action));
        }
    }
    let actions = c.on_audio(config, AudioEvent::End);
    assert_eq!(actions.len(), 1);
    (frames, json_of(&actions[0]))
}

#[test]
fn test_happy_path() {
    let config = config(100);
    let mut c = Connection::new(&config);
    the_request(client_text(&mut c, &config, &object(&[("text", "Hello world")])));
    let start = accept(&mut c);
    assert_eq!(start["type"], "start");
    assert!(start["utterance_id"].is_string());
    assert_eq!(start["sample_rate"], 24000);
    assert_eq!(start["channels"], 1);
    let (frames, done) = stream_four(&mut c, &config);
    assert_eq!(frames.len(), 4);
    let mut total_bytes = 0;
    for data in &frames {
        assert_eq!(data.len(), 100);
        total_bytes += data.len();
    }
    assert_eq!(total_bytes, 400);
    assert_eq!(done["type"], "done");
    assert_eq!(done["utterance_id"], start["utterance_id"]);
}

#[test]
fn test_sticky_params() {
    let config = config(100);
    let mut c = Connection::new(&config);
    let first = object(&[("text", "First"), ("voice", "custom_voice")]);
    let request = the_request(client_text(&mut c, &config, &first));
    assert_eq!(request.body["voice"], "custom_voice");
    assert_eq!(accept(&mut c)["type"], "start");
    assert_eq!(stream_four(&mut c, &config).1["type"], "done");
    let request = the_request(client_text(&mut c, &config, &object(&[("text", "Second")])));
    assert_eq!(request.body["voice"], "custom_voice");
    assert_eq!(request.body["input"], "Second");
    assert_eq!(accept(&mut c)["type"], "start");
    assert_eq!(stream_four(&mut c, &config).1["type"], "done");
}

#[test]
fn test_cancel() {
    let config = config(100);
    let mut c = Connection::new(&config);
    the_request(client_text(&mut c, &config, &object(&[("text", "Long text")])));
    let start = accept(&mut c);
    assert_eq!(start["type"], "start");
    let actions = c.on_audio(&config, AudioEvent::Bytes(vec![1; 100]));
    assert_eq!(actions.len(), 1);
    audio_of(&actions[0]);
    let actions = client_text(&mut c, &config, &object(&[("type", "cancel")]));
    assert_eq!(actions.len(), 1);
    let v = json_of(&actions[0]);
    assert_eq!(v["type"], "cancelled");
    assert_eq!(v["utterance_id"], start["utterance_id"]);
    the_request(client_text(&mut c, &config, &object(&[("text", "After cancel")])));
    assert_eq!(accept(&mut c)["type"], "start");
}

#[test]
fn test_reset() {
    let config = config(100);
    let mut c = Connection::new(&config);
    let first = object(&[("text", "With voice"), ("voice", "custom")]);
    the_request(client_text(&mut c, &config, &first));
    accept(&mut c);
    stream_four(&mut c, &config);
    assert!(client_text(&mut c, &config, &object(&[("type", "reset")])).is_empty());
    let request = the_request(client_text(&mut c, &config, &object(&[("text", "After reset")])));
    assert_eq!(request.body["voice"], "af_heart");
    assert_eq!(accept(&mut c)["type"], "start");
    assert_eq!(stream_four(&mut c, &config).1["type"], "done");
}

#[test]
fn test_malformed_json() {
    let config = config(4800);
    let mut c = Connection::new(&config);
    let actions = client_text(&mut c, &config, "not json {{{");
    assert_eq!(actions.len(), 1);
    let err = json_of(&actions[0]);
    assert_eq!(err["type"], "error");
    assert!(err["message"].as_str().unwrap().contains("Invalid JSON"));
    assert!(err.get("utterance_id").is_none());
    the_request(client_text(&mut c, &config, &object(&[("text", "After error")])));
    assert_eq!(accept(&mut c)["type"], "start");
}

#[test]
fn test_binary_frame_from_client() {
    let config = config(4800);
    let mut c = Connection::new(&config);
    let actions = c.on_client(&config, ClientEvent::Binary);
    assert_eq!(actions.len(), 1);
    match &actions[0] {
        Action::Send(ServerFrame::Close { code, reason }) => {
            assert_eq!(*code, 1003);
            assert_eq!(reason, "Binary frames not supported");
        }
        _ => panic!("Expected close message"),
    }
    assert!(c.is_closed());
}

#[test]
fn test_concurrent_utterance_rejected() {
    let config = config(100);
    let mut c = Connection::new(&config);
    the_request(client_text(&mut c, &config, &object(&[("text", "First long text")])));
    let start = accept(&mut c);
    assert_eq!(start["type"], "start");
    c.on_audio(&config, AudioEvent::Bytes(vec![1; 130]));
    let second = object(&[("text", "Second text")]);
    let actions = client_text(&mut c, &config, &second);
    assert_eq!(actions.len(), 1);
    let v = json_of(&actions[0]);
    assert_eq!(v["type"], "error");
    assert!(v["message"].as_str().unwrap().contains("still in progress"));
    assert_eq!(
        v["message"].as_str().unwrap(),
        format!(
            "Utterance {} is still in progress. Send {{\"type\":\"cancel\"}} first.",
            start["utterance_id"].as_str().unwrap()
        )
    );
    assert!(v.get("utterance_id").is_none());
    // The utterance goes on where it was.
    let actions = c.on_audio(&config, AudioEvent::Bytes(vec![2; 70]));
    assert_eq!(actions.len(), 1);
    assert_eq!(audio_of(&actions[0])[..30], [1u8; 30]);
}

#[test]
fn test_backend_error() {
    let config = config(4800);
    let mut c = Connection::new(&config);
    the_request(client_text(&mut c, &config, &object(&[("text", "Hello")])));
    let actions = c.on_reply(BackendReply::Answered {
        status: 503,
        error_body: Some("model not loaded".to_string()),
    });
    assert_eq!(actions.len(), 1);
    let err = json_of(&actions[0]);
    assert_eq!(err["type"], "error");
    assert!(err["utterance_id"].is_string());
    assert!(err["message"].as_str().unwrap().contains("503"));
    assert_eq!(err["message"], "Backend returned 503: model not loaded");
    the_request(client_text(&mut c, &config, &object(&[("text", "Retry")])));
    assert_eq!(accept(&mut c)["type"], "start");
}

#[test]
fn test_empty_text() {
    let config = config(100);
    let mut c = Connection::new(&config);
    let request = the_request(client_text(&mut c, &config, &object(&[("text", "")])));
    assert_eq!(request.body["input"], "");
    assert_eq!(accept(&mut c)["type"], "start");
}

#[test]
fn test_custom_utterance_id() {
    let config = config(100);
    let mut c = Connection::new(&config);
    let text = object(&[("text", "Hello"), ("utterance_id", "my-custom-id")]);
    the_request(client_text(&mut c, &config, &text));
    let start = accept(&mut c);
    assert_eq!(start["type"], "start");
    assert_eq!(start["utterance_id"], "my-custom-id");
    let (_, done) = stream_four(&mut c, &config);
    assert_eq!(done["type"], "done");
    assert_eq!(done["utterance_id"], "my-custom-id");
}

#[test]
fn test_missing_text_field() {
    let config = config(4800);
    let mut c = Connection::new(&config);
    let actions = client_text(&mut c, &config, &object(&[("voice", "something")]));
    let err = json_of(&actions[0]);
    assert_eq!(err["type"], "error");
    assert!(err["message"].as_str().unwrap().contains("text"));
    assert_eq!(c.session.voice, "af_heart");
}

#[test]
fn test_unknown_message_type() {
    let config = config(4800);
    let mut c = Connection::new(&config);
    let actions = client_text(&mut c, &config, &object(&[("type", "pause")]));
    let err = json_of(&actions[0]);
    assert_eq!(err["type"], "error");
    assert!(err["message"].as_str().unwrap().contains("Unknown message type"));
    assert_eq!(err["message"], "Unknown message type: \"pause\"");
    the_request(client_text(&mut c, &config, &object(&[("text", "Still works")])));
    assert_eq!(accept(&mut c)["type"], "start");
}

#[test]
fn test_extra_fields_forwarded() {
    let config = config(100);
    let mut c = Connection::new(&config);
    let text = object(&[("text", "Hello"), ("style", "cheerful"), ("emotion", "happy")]);
    let request = the_request(client_text(&mut c, &config, &text));
    assert_eq!(accept(&mut c)["type"], "start");
    let body = request.body;
    assert_eq!(body["input"], "Hello");
    assert_eq!(body["style"], "cheerful");
    assert_eq!(body["emotion"], "happy");
    assert_eq!(body["model"], "kokoro");
    assert_eq!(body["voice"], "af_heart");
    assert_eq!(body["response_format"], "pcm");
    assert!(body.get("text").is_none());
    assert_eq!(body.len(), 9);
}

#[test]
fn test_buffer_overflow_closes_connection() {
    let mut config = config(100);
    config.max_buffer_size = 500;
    let mut c = Connection::new(&config);
    the_request(client_text(&mut c, &config, &object(&[("text", "overflow")])));
    accept(&mut c);
    let mut got_error = false;
    let mut got_close = false;
    for _ in 0..200 {
        for action in c.on_audio(&config, AudioEvent::Bytes(vec![0u8; 1000])) {
            if let Action::Send(ServerFrame::Close { code, reason }) = &action {
                assert_eq!(*code, 1011);
                assert_eq!(reason, "Buffer limit exceeded");
                got_close = true;
            } else if let Action::Send(ServerFrame::Error { .. }) = &action {
                let v = json_of(&action);
                assert!(v["message"].as_str().unwrap().contains("Buffer size"));
                assert_eq!(v["message"], "Buffer size exceeded maximum of 500 bytes");
                assert!(v["utterance_id"].is_string());
                got_error = true;
            }
        }
        if c.is_closed() {
            break;
        }
    }
    assert!(got_error, "Should have received a buffer overflow error frame");
    assert!(got_close, "Connection should have been closed after overflow");
}

#[test]
fn test_reset_clears_extras() {
    let config = config(100);
    let mut c = Connection::new(&config);
    let text = object(&[("text", "one"), ("style", "cheerful")]);
    let first = the_request(client_text(&mut c, &config, &text));
    accept(&mut c);
    stream_four(&mut c, &config);
    assert!(client_text(&mut c, &config, &object(&[("type", "reset")])).is_empty());
    let second = the_request(client_text(&mut c, &config, &object(&[("text", "two")])));
    assert_eq!(first.body["style"], "cheerful");
    assert!(second.body.get("style").is_none());
}

#[test]
fn test_extras_sticky_across_utterances() {
    let config = config(100);
    let mut c = Connection::new(&config);
    let text = object(&[("text", "one"), ("style", "cheerful")]);
    let first = the_request(client_text(&mut c, &config, &text));
    accept(&mut c);
    stream_four(&mut c, &config);
    let second = the_request(client_text(&mut c, &config, &object(&[("text", "two")])));
    assert_eq!(first.body["style"], "cheerful");
    assert_eq!(second.body["style"], "cheerful", "extras should persist across utterances");
}

#[test]
fn test_cancel_when_idle() {
    let config = config(4800);
    let mut c = Connection::new(&config);
    assert!(client_text(&mut c, &config, &object(&[("type", "cancel")])).is_empty());
    the_request(client_text(&mut c, &config, &object(&[("text", "After idle cancel")])));
    assert_eq!(accept(&mut c)["type"], "start");
}

#[test]
fn test_pcm16_padding_odd_final_buffer() {
    let config = config(100);
    let mut c = Connection::new(&config);
    the_request(client_text(&mut c, &config, &object(&[("text", "odd")])));
    assert_eq!(accept(&mut c)["type"], "start");
    assert!(c.on_audio(&config, AudioEvent::Bytes(vec![0xABu8; 7])).is_empty());
    let actions = c.on_audio(&config, AudioEvent::End);
    assert_eq!(actions.len(), 2);
    let data = audio_of(&actions[0]);
    assert_eq!(data.len(), 8);
    assert_eq!(data[6], 0xAB);
    assert_eq!(data[7], 0x00);
    assert_eq!(json_of(&actions[1])["type"], "done");
}

#[test]
fn test_extras_cannot_override_response_format() {
    let config = config(100);
    let mut c = Connection::new(&config);
    let text = object(&[("text", "Hello"), ("response_format", "mp3"), ("input", "injected")]);
    let request = the_request(client_text(&mut c, &config, &text));
    let body = request.body;
    assert_eq!(body["response_format"], "pcm", "response_format must always be pcm");
    assert_eq!(body["input"], "Hello", "input must match the text field");
}
