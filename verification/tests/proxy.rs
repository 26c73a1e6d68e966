//! Connections beyond the common conversations.
use serde_json::Value;
use tts_bridge::config::{Config, LogFormat};
use tts_bridge::frame::ServerFrame;
use tts_bridge::json::Json;
use tts_bridge::message::{
    interpret_message, parse_client_message, read_json, ClientMessage, MessageError,
};
use tts_bridge::proxy::{
    clip_error, is_success, Action, AudioEvent, BackendReply, ClientEvent, Connection, Phase,
    MAX_ERROR_TEXT, MAX_MESSAGE_SIZE,
};

fn small_config() -> Config {
    Config {
        backend_url: "https://tts.example".to_string(),
        backend_api_key: Some("key".to_string()),
        default_model: "m".to_string(),
        default_voice: "v".to_string(),
        chunk_size: 4,
        max_buffer_size: 10,
        port: 0,
        log_level: "info".to_string(),
        log_format: LogFormat::Json,
    }
}

fn streaming(config: &Config) -> Connection {
    let mut c = Connection::new(config);
    let text = "{\"text\":\"t\",\"utterance_id\":\"u\"}".to_string();
    assert_eq!(c.on_client(config, ClientEvent::Text(text)).len(), 1);
    let actions = c.on_reply(BackendReply::Answered { status: 204, error_body: None });
    assert_eq!(texts(&actions), vec![
        "{\"channels\":1,\"sample_rate\":24000,\"type\":\"start\",\"utterance_id\":\"u\"}"
    ]);
    assert!(c.reads_audio());
    c
}

fn texts(actions: &[Action]) -> Vec<String> {
    let mut all = Vec::new();
    for action in actions {
        if let Action::Send(frame) = action {
            if let Some(text) = frame.text() {
                all.push(text);
            }
        }
    }
    all
}

fn audio(actions: &[Action]) -> Vec<Vec<u8>> {
    let mut all = Vec::new();
    for action in actions {
        if let Action::Send(ServerFrame::Audio(bytes)) = action {
            all.push(bytes.clone());
        }
    }
    all
}

fn say(c: &mut Connection, config: &Config, text: &str) -> Vec<String> {
    texts(&c.on_client(config, ClientEvent::Text(text.to_string())))
}

#[test]
fn request_carries_url_token_and_defaults() {
    let config = small_config();
    let mut c = Connection::new(&config);
    let actions = c.on_client(&config, ClientEvent::Text("{\"text\":\"Hi\"}".to_string()));
    match &actions[0] {
        Action::Request(request) => {
            assert_eq!(request.url, "https://tts.example/v1/audio/speech");
            assert_eq!(request.bearer.as_deref(), Some("key"));
            assert_eq!(
                Value::Object(request.body.clone()).to_string(),
                "{\"input\":\"Hi\",\"language\":\"en\",\"model\":\"m\",\"response_format\":\"pcm\",\
                 \"sample_rate\":24000,\"speed\":1.0,\"voice\":\"v\"}"
            );
        }
        _ => panic!("expected a request"),
    }
    assert!(!c.reads_client());
    assert!(!c.reads_audio());
}

#[test]
fn numbers_are_forwarded_as_they_came() {
    let config = small_config();
    let mut c = Connection::new(&config);
    let text = "{\"text\":\"t\",\"sample_rate\":4294983296,\"speed\":1.25,\"tags\":[1,{\"a\":null}]}";
    let actions = c.on_client(&config, ClientEvent::Text(text.to_string()));
    match &actions[0] {
        Action::Request(request) => {
            assert_eq!(request.body["sample_rate"], Value::from(4294983296u64));
            assert_eq!(request.body["speed"], Value::from(1.25));
            assert_eq!(request.body["tags"].to_string(), "[1,{\"a\":null}]");
        }
        _ => panic!("expected a request"),
    }
    let actions = c.on_reply(BackendReply::Answered { status: 200, error_body: None });
    let start: Value = serde_json::from_str(&texts(&actions)[0]).unwrap();
    assert_eq!(start["sample_rate"], 4294983296u64);
}

#[test]
fn values_of_another_kind_are_not_taken() {
    let config = small_config();
    let mut c = Connection::new(&config);
    let text = "{\"text\":\"t\",\"voice\":5,\"model\":null,\"sample_rate\":\"x\",\"speed\":true,\
                \"language\":[],\"utterance_id\":7,\"type\":3}";
    let actions = c.on_client(&config, ClientEvent::Text(text.to_string()));
    match &actions[0] {
        Action::Request(request) => {
            assert_eq!(request.body["voice"], "v");
            assert_eq!(request.body["model"], "m");
            assert_eq!(request.body["sample_rate"], 24000);
            assert_eq!(request.body["speed"], 1.0);
            assert_eq!(request.body["language"], "en");
            assert_eq!(request.body.len(), 7);
        }
        _ => panic!("expected a request"),
    }
}

#[test]
fn fresh_ids_are_random_uuids() {
    let config = small_config();
    let mut ids = Vec::new();
    for _ in 0..2 {
        let mut c = Connection::new(&config);
        c.on_client(&config, ClientEvent::Text("{\"text\":\"t\"}".to_string()));
        match &c.phase {
            Phase::Requesting { utterance_id } => ids.push(utterance_id.clone()),
            _ => panic!("expected a request to be out"),
        }
    }
    assert_ne!(ids[0], ids[1]);
    for id in &ids {
        assert_eq!(id.len(), 38);
        assert!(id.starts_with("u_"));
        let id = id[2..].as_bytes();
        for (i, b) in id.iter().enumerate() {
            match i {
                8 | 13 | 18 | 23 => assert_eq!(*b, b'-'),
                14 => assert_eq!(*b, b'4'),
                19 => assert!(matches!(*b, b'8' | b'9' | b'a' | b'b')),
                _ => assert!(matches!(*b, b'0'..=b'9' | b'a'..=b'f')),
            }
        }
    }
}

#[test]
fn error_frames_name_each_fault() {
    let config = small_config();
    let mut c = Connection::new(&config);
    assert_eq!(
        say(&mut c, &config, "[]"),
        vec!["{\"message\":\"Expected JSON object\",\"type\":\"error\"}"]
    );
    assert_eq!(
        say(&mut c, &config, "{}"),
        vec!["{\"message\":\"Missing required field: \\\"text\\\"\",\"type\":\"error\"}"]
    );
    assert_eq!(
        say(&mut c, &config, "{\"text\":null}"),
        vec!["{\"message\":\"Missing required field: \\\"text\\\"\",\"type\":\"error\"}"]
    );
    assert_eq!(
        say(&mut c, &config, "{\"type\":\"Cancel\"}"),
        vec!["{\"message\":\"Unknown message type: \\\"Cancel\\\"\",\"type\":\"error\"}"]
    );
    assert_eq!(
        say(&mut c, &config, "{"),
        vec![
            "{\"message\":\"Invalid JSON: EOF while parsing an object at line 1 column 1\",\"type\":\"error\"}"
        ]
    );
    assert!(c.reads_client());
}

#[test]
fn messages_while_streaming() {
    let config = small_config();
    let mut c = streaming(&config);
    c.on_audio(&config, AudioEvent::Bytes(vec![9]));
    // Faulty texts are answered, and nothing else happens.
    assert_eq!(
        say(&mut c, &config, "{"),
        vec![
            "{\"message\":\"Invalid JSON: EOF while parsing an object at line 1 column 1\",\"type\":\"error\"}"
        ]
    );
    assert_eq!(
        say(&mut c, &config, "{\"voice\":\"x\"}"),
        vec!["{\"message\":\"Missing required field: \\\"text\\\"\",\"type\":\"error\"}"]
    );
    assert_eq!(
        say(&mut c, &config, "7"),
        vec!["{\"message\":\"Expected JSON object\",\"type\":\"error\"}"]
    );
    assert!(say(&mut c, &config, "{\"type\":\"pause\"}").is_empty());
    // Any `text` is too early, whatever stands beside it.
    let early = "{\"message\":\"Utterance u is still in progress. Send {\\\"type\\\":\\\"cancel\\\"} first.\",\"type\":\"error\"}";
    assert_eq!(say(&mut c, &config, "{\"text\":5}"), vec![early]);
    assert_eq!(say(&mut c, &config, "{\"text\":\"t\",\"voice\":\"x\"}"), vec![early]);
    assert_eq!(c.session.voice, "v");
    assert_eq!(say(&mut c, &config, "{\"type\":\"reset\",\"text\":\"t\"}"), vec![early]);
    // Bytes that were held are still there.
    assert_eq!(
        audio(&c.on_audio(&config, AudioEvent::Bytes(vec![1, 2, 3]))),
        vec![vec![9, 1, 2, 3]]
    );
    // A cancel wins over a `text`.
    assert_eq!(
        say(&mut c, &config, "{\"type\":\"cancel\",\"text\":\"t\"}"),
        vec!["{\"type\":\"cancelled\",\"utterance_id\":\"u\"}"]
    );
    assert!(!c.reads_audio());
}

#[test]
fn reset_while_streaming_changes_the_next_request() {
    let config = small_config();
    let mut c = Connection::new(&config);
    let text = "{\"text\":\"t\",\"voice\":\"x\",\"style\":\"y\"}".to_string();
    c.on_client(&config, ClientEvent::Text(text));
    c.on_reply(BackendReply::Answered { status: 200, error_body: None });
    assert!(say(&mut c, &config, "{\"type\":\"reset\"}").is_empty());
    assert!(c.reads_audio());
    assert_eq!(c.session.voice, "v");
    assert!(c.session.extras.is_empty());
    assert_eq!(texts(&c.on_audio(&config, AudioEvent::End)).len(), 1);
}

#[test]
fn pings_are_answered() {
    let config = small_config();
    let mut c = Connection::new(&config);
    for _ in 0..2 {
        let actions = c.on_client(&config, ClientEvent::Ping(vec![1, 2, 3]));
        assert_eq!(actions.len(), 1);
        assert!(matches!(&actions[0], Action::Send(ServerFrame::Pong(data)) if data[..] == [1, 2, 3]));
        assert!(c.on_client(&config, ClientEvent::Pong).is_empty());
        c = streaming(&config);
    }
}

#[test]
fn the_client_may_leave() {
    let config = small_config();
    let mut c = Connection::new(&config);
    assert!(c.on_client(&config, ClientEvent::Closed).is_empty());
    assert!(c.is_closed());
    let mut c = streaming(&config);
    assert!(c.on_client(&config, ClientEvent::Closed).is_empty());
    assert!(c.is_closed());
    let mut c = streaming(&config);
    assert_eq!(c.on_client(&config, ClientEvent::Binary).len(), 1);
    assert!(c.is_closed());
    // A frame that cannot be read ends an idle connection only.
    let mut c = Connection::new(&config);
    assert!(c.on_client(&config, ClientEvent::Failed).is_empty());
    assert!(c.is_closed());
    let mut c = streaming(&config);
    assert!(c.on_client(&config, ClientEvent::Failed).is_empty());
    assert!(c.reads_audio());
}

#[test]
fn backend_faults_end_the_utterance_only() {
    let config = small_config();
    let mut c = Connection::new(&config);
    let text = "{\"text\":\"t\",\"utterance_id\":\"u\"}";
    c.on_client(&config, ClientEvent::Text(text.to_string()));
    assert_eq!(
        texts(&c.on_reply(BackendReply::Failed("refused".to_string()))),
        vec!["{\"message\":\"Backend request failed: refused\",\"type\":\"error\",\"utterance_id\":\"u\"}"]
    );
    c.on_client(&config, ClientEvent::Text(text.to_string()));
    assert_eq!(
        texts(&c.on_reply(BackendReply::Answered { status: 300, error_body: None })),
        vec!["{\"message\":\"Backend returned 300: unable to read response body\",\"type\":\"error\",\"utterance_id\":\"u\"}"]
    );
    let mut c = streaming(&config);
    assert_eq!(
        texts(&c.on_audio(&config, AudioEvent::Failed("broken".to_string()))),
        vec!["{\"message\":\"Backend stream error: broken\",\"type\":\"error\",\"utterance_id\":\"u\"}"]
    );
    assert!(c.reads_client());
    assert!(!c.reads_audio());
}

#[test]
fn frames_do_not_depend_on_the_pieces() {
    let config = small_config();
    let bytes: Vec<u8> = (0..23).collect();
    for size in 1..10 {
        let mut c = streaming(&config);
        let mut frames = Vec::new();
        for piece in bytes.chunks(size) {
            frames.extend(audio(&c.on_audio(&config, AudioEvent::Bytes(piece.to_vec()))));
            assert!(c.reads_audio());
        }
        let actions = c.on_audio(&config, AudioEvent::End);
        assert_eq!(texts(&actions), vec!["{\"type\":\"done\",\"utterance_id\":\"u\"}"]);
        frames.extend(audio(&actions));
        assert_eq!(frames.len(), 6);
        for frame in &frames {
            assert_eq!(frame.len(), 4);
        }
        let mut all = frames.concat();
        assert_eq!(all.pop(), Some(0));
        assert_eq!(all, bytes);
    }
}

#[test]
fn the_limit_itself_is_allowed() {
    let config = small_config();
    let mut c = streaming(&config);
    assert_eq!(audio(&c.on_audio(&config, AudioEvent::Bytes(vec![1; 10]))).len(), 2);
    assert_eq!(c.on_audio(&config, AudioEvent::Bytes(vec![1; 8])).len(), 2);
    let actions = c.on_audio(&config, AudioEvent::Bytes(vec![1; 9]));
    assert_eq!(
        texts(&actions),
        vec!["{\"message\":\"Buffer size exceeded maximum of 10 bytes\",\"type\":\"error\",\"utterance_id\":\"u\"}"]
    );
    assert!(c.is_closed());
}

#[test]
fn an_utterance_without_audio_is_done() {
    let config = small_config();
    let mut c = streaming(&config);
    let actions = c.on_audio(&config, AudioEvent::End);
    assert_eq!(actions.len(), 1);
    assert_eq!(texts(&actions), vec!["{\"type\":\"done\",\"utterance_id\":\"u\"}"]);
}

#[test]
fn lost_frames() {
    let config = small_config();
    let audio = ServerFrame::Audio(vec![1, 2]);
    let done = ServerFrame::Done { utterance_id: "u".to_string() };
    let start = ServerFrame::Start {
        utterance_id: "u".to_string(),
        sample_rate: serde_json::Number::from(8000u64),
    };
    for frame in [audio, done, start] {
        let mut c = streaming(&config);
        assert!(c.on_send_failure(&frame));
        assert!(c.is_closed());
    }
    let cancelled = ServerFrame::Cancelled { utterance_id: "u".to_string() };
    let error = ServerFrame::Error { utterance_id: None, message: "m".to_string() };
    let close = ServerFrame::Close { code: 1003, reason: "r".to_string() };
    for frame in [cancelled, error, close, ServerFrame::Pong(vec![])] {
        let mut c = streaming(&config);
        assert!(!c.on_send_failure(&frame));
        assert!(c.reads_audio());
    }
}

#[test]
fn long_error_texts_are_cut_between_characters() {
    assert_eq!(MAX_ERROR_TEXT, 512);
    assert_eq!(MAX_MESSAGE_SIZE, 1024 * 1024);
    let exact = "a".repeat(512);
    assert_eq!(clip_error(Some(exact.clone())), exact);
    assert_eq!(clip_error(Some("a".repeat(513))), format!("{exact}..."));
    // Byte 512 falls inside a character of two, three or four bytes.
    let odd = format!("a{}", "é".repeat(300));
    assert_eq!(clip_error(Some(odd)), format!("a{}...", "é".repeat(255)));
    let three = "語".repeat(200);
    assert_eq!(clip_error(Some(three)), format!("{}...", "語".repeat(170)));
    let four = format!("ab{}", "😀".repeat(200));
    assert_eq!(clip_error(Some(four)), format!("ab{}...", "😀".repeat(127)));
    assert_eq!(clip_error(None), "unable to read response body");
}

#[test]
fn statuses_of_success() {
    assert!(!is_success(199));
    assert!(is_success(200));
    assert!(is_success(299));
    assert!(!is_success(300));
}

#[test]
fn messages_are_read_one_level_deep() {
    assert!(matches!(read_json("null"), Ok(Json::Null)));
    assert!(matches!(read_json("true"), Ok(Json::Bool(true))));
    assert!(matches!(read_json("[1,2]"), Ok(Json::Array(items)) if items.len() == 2));
    assert!(matches!(read_json("\"a\\n\""), Ok(Json::Text(s)) if s == "a\n"));
    assert!(matches!(read_json("3"), Ok(Json::Number(n)) if n.as_u64() == Some(3)));
    assert!(read_json("").is_err());
    match interpret_message(read_json("{\"text\":\"t\",\"x\":null,\"y\":false,\"z\":-1,\"o\":{}}")) {
        Ok(ClientMessage::Synthesize(request)) => {
            assert_eq!(request.text, "t");
            assert_eq!(
                Value::Object(request.extra_fields).to_string(),
                "{\"o\":{},\"x\":null,\"y\":false,\"z\":-1}"
            );
        }
        _ => panic!("expected a request to speak"),
    }
}

#[test]
fn frame_texts_read_back() {
    let id = "quote \" slash \\ tab \t é 😀 \u{1}".to_string();
    let frame = ServerFrame::Error { utterance_id: Some(id.clone()), message: "m".to_string() };
    let read: Value = serde_json::from_str(&frame.text().unwrap()).unwrap();
    assert_eq!(read["utterance_id"], id);
    let frame = ServerFrame::Start {
        utterance_id: id.clone(),
        sample_rate: serde_json::Number::from(u64::MAX),
    };
    let read: Value = serde_json::from_str(&frame.text().unwrap()).unwrap();
    assert_eq!(read["utterance_id"], id);
    assert_eq!(read["sample_rate"], u64::MAX);
    assert!(ServerFrame::Audio(vec![]).text().is_none());
    assert!(ServerFrame::Pong(vec![]).text().is_none());
    assert!(ServerFrame::Close { code: 1003, reason: "r".to_string() }.text().is_none());
}

#[test]
fn parameters_outlive_cancels_and_errors() {
    let config = small_config();
    let mut c = Connection::new(&config);
    let text = "{\"text\":\"t\",\"voice\":\"x\",\"speed\":2,\"style\":\"y\"}".to_string();
    c.on_client(&config, ClientEvent::Text(text));
    c.on_reply(BackendReply::Failed("refused".to_string()));
    c.on_client(&config, ClientEvent::Text("{\"text\":\"t\",\"style\":\"z\"}".to_string()));
    c.on_reply(BackendReply::Answered { status: 200, error_body: None });
    say(&mut c, &config, "{\"type\":\"cancel\"}");
    let actions = c.on_client(&config, ClientEvent::Text("{\"text\":\"t\"}".to_string()));
    match &actions[0] {
        Action::Request(request) => {
            assert_eq!(request.body["voice"], "x");
            assert_eq!(request.body["speed"].to_string(), "2");
            assert_eq!(request.body["style"], "z");
            assert_eq!(request.body.len(), 8);
        }
        _ => panic!("expected a request"),
    }
}

#[test]
fn client_messages_are_told_apart() {
    assert!(matches!(parse_client_message("{\"type\":\"cancel\"}"), Ok(ClientMessage::Cancel)));
    let both = "{\"type\":\"reset\",\"text\":\"t\"}";
    assert!(matches!(parse_client_message(both), Ok(ClientMessage::Reset)));
    assert!(matches!(parse_client_message("\"t\""), Err(MessageError::NotAnObject)));
    assert!(matches!(parse_client_message("{}"), Err(MessageError::MissingText)));
    assert!(matches!(parse_client_message("t"), Err(MessageError::InvalidJson(_))));
    assert!(matches!(
        parse_client_message("{\"type\":\"\"}"),
        Err(MessageError::UnknownType(t)) if t.is_empty()
    ));
}

#[test]
fn audio_is_complete_whatever_the_client_sends() {
    let config = small_config();
    let bytes: Vec<u8> = (0..23).collect();
    let mut c = streaming(&config);
    let mut frames = Vec::new();
    for piece in bytes.chunks(5) {
        frames.extend(audio(&c.on_audio(&config, AudioEvent::Bytes(piece.to_vec()))));
        for text in ["{", "{\"text\":\"t\"}", "{\"type\":\"reset\"}", "{\"type\":\"pause\"}"] {
            say(&mut c, &config, text);
        }
        c.on_client(&config, ClientEvent::Ping(vec![7]));
        c.on_client(&config, ClientEvent::Failed);
        assert!(c.reads_audio());
    }
    let actions = c.on_audio(&config, AudioEvent::End);
    frames.extend(audio(&actions));
    assert_eq!(texts(&actions), vec!["{\"type\":\"done\",\"utterance_id\":\"u\"}"]);
    let mut expected = bytes;
    expected.push(0);
    assert_eq!(frames.concat(), expected);
}

#[test]
fn requests_hold_what_was_given_since_the_last_reset() {
    let config = small_config();
    let mut c = Connection::new(&config);
    let mut bodies = Vec::new();
    for text in [
        "{\"text\":\"a\",\"voice\":\"x\",\"style\":\"y\"}",
        "{\"text\":\"b\",\"model\":\"z\"}",
        "{\"text\":\"c\"}",
    ] {
        for action in c.on_client(&config, ClientEvent::Text(text.to_string())) {
            if let Action::Request(request) = action {
                bodies.push(request.body);
            }
        }
        c.on_reply(BackendReply::Answered { status: 200, error_body: None });
        // The second utterance streams on while the parameters are reset.
        if bodies.len() == 2 {
            say(&mut c, &config, "{\"type\":\"reset\"}");
        }
        c.on_audio(&config, AudioEvent::End);
    }
    assert_eq!(bodies[1]["voice"], "x");
    assert_eq!(bodies[1]["model"], "z");
    assert_eq!(bodies[1]["style"], "y");
    assert_eq!(bodies[1]["input"], "b");
    assert_eq!(bodies[2]["voice"], "v");
    assert_eq!(bodies[2]["model"], "m");
    assert!(bodies[2].get("style").is_none());
    assert_eq!(bodies[2].len(), 7);
}
