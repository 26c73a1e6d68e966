use tts_bridge::config::{normalize_log_level, Config, Environment, LogFormat};
use tts_bridge::text::{clip, decimal, parse_decimal, same_text};

fn set(value: &str) -> Option<String> {
    Some(value.to_string())
}

#[test]
fn defaults_without_environment() {
    let config = Config::from_env(Environment::default()).unwrap();
    assert_eq!(config.backend_url, "http://localhost:8000");
    assert_eq!(config.backend_api_key, None);
    assert_eq!(config.default_model, "kokoro");
    assert_eq!(config.default_voice, "af_heart");
    assert_eq!(config.chunk_size, 4800);
    assert_eq!(config.max_buffer_size, 5_242_880);
    assert_eq!(config.port, 8000);
    assert_eq!(config.log_level, "info");
    assert!(matches!(config.log_format, LogFormat::Json));
}

#[test]
fn environment_overrides_defaults() {
    let config = Config::from_env(Environment {
        backend_url: set("https://api.openai.com"),
        backend_api_key: set("token"),
        default_model: set("tts-1"),
        default_voice: set("alloy"),
        chunk_size: set("+960"),
        max_buffer_size: set("100"),
        port: set("65535"),
        log_level: set("Warning"),
        log_format: set("PLAIN"),
    })
    .unwrap();
    assert_eq!(config.backend_url, "https://api.openai.com");
    assert_eq!(config.backend_api_key.as_deref(), Some("token"));
    assert_eq!(config.default_model, "tts-1");
    assert_eq!(config.default_voice, "alloy");
    assert_eq!(config.chunk_size, 960);
    assert_eq!(config.max_buffer_size, 100);
    assert_eq!(config.port, 65535);
    assert_eq!(config.log_level, "warn");
    assert!(matches!(config.log_format, LogFormat::Plain));
}

#[test]
fn numbers_that_cannot_be_read_give_defaults() {
    let config = Config::from_env(Environment {
        chunk_size: set("4800 "),
        max_buffer_size: set("-1"),
        port: set("65536"),
        log_format: set("xml"),
        ..Environment::default()
    })
    .unwrap();
    assert_eq!(config.chunk_size, 4800);
    assert_eq!(config.max_buffer_size, 5_242_880);
    assert_eq!(config.port, 8000);
    assert!(matches!(config.log_format, LogFormat::Json));
}

#[test]
fn chunk_size_must_be_positive_and_even() {
    for (value, shown) in [("0", "0"), ("7", "7"), ("0101", "101")] {
        let refused = Config::from_env(Environment { chunk_size: set(value), ..Environment::default() });
        assert_eq!(
            refused.err(),
            Some(format!(
                "FATAL: TTS_CHUNK_SIZE must be a positive even number (PCM16 = 2 bytes/sample), got {shown}"
            ))
        );
    }
    let config = Config::from_env(Environment { chunk_size: set("2"), ..Environment::default() });
    assert_eq!(config.unwrap().chunk_size, 2);
}

#[test]
fn log_levels() {
    assert_eq!(normalize_log_level("WARNING"), "warn");
    assert_eq!(normalize_log_level("Warn"), "warn");
    assert_eq!(normalize_log_level("DEBUG"), "debug");
    assert_eq!(normalize_log_level("ÄÖ"), "äö");
    assert_eq!(normalize_log_level(""), "");
}

#[test]
fn decimal_numbers() {
    assert_eq!(decimal(0), "0");
    assert_eq!(decimal(10), "10");
    assert_eq!(decimal(u64::MAX), "18446744073709551615");
    for text in ["", "+", "-0", "++1", "1+", " 1", "1_0", "0x1", "١", "18446744073709551616"] {
        assert_eq!(parse_decimal(text, u64::MAX), None);
        assert_eq!(text.parse::<u64>().ok(), None);
    }
    for text in ["0", "+7", "007", "18446744073709551615", "00000000000000000000000000000042"] {
        assert_eq!(parse_decimal(text, u64::MAX), text.parse::<u64>().ok());
    }
    assert_eq!(parse_decimal("65535", 65535), Some(65535));
    assert_eq!(parse_decimal("65536", 65535), None);
}

#[test]
fn texts() {
    assert!(same_text("é", "é"));
    assert!(!same_text("a", "A"));
    assert_eq!(clip("語語", 5), "語");
    assert_eq!(clip("語語", 2), "");
    assert_eq!(clip("語語", 6), "語語");
}

#[test]
fn log_levels_are_normalized_once() {
    for level in ["WARNING", "Warn", "iNFO", "", "tts=Debug,WARNING", "ÄÖ", "İ"] {
        let once = normalize_log_level(level);
        assert_eq!(normalize_log_level(&once), once);
    }
    assert_eq!(normalize_log_level("tts=Debug,WARNING"), "tts=debug,warning");
}
