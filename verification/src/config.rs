//! The bridge's settings, read from environment variables.
use crate::text::{
    ascii_lowercase, decimal, decimal_text, decimal_value, lowercase, parse_decimal, same_text,
    text_view, to_lowercase,
};
use vstd::prelude::*;
use vstd::string::*;
use vstd::utf8::is_ascii_chars;

verus! {

#[derive(Debug, Clone)]
pub enum LogFormat {
    Json,
    Plain,
}

#[derive(Debug, Clone)]
pub struct Config {
    pub backend_url: String,
    pub backend_api_key: Option<String>,
    pub default_model: String,
    pub default_voice: String,
    /// Bytes per audio frame.
    pub chunk_size: usize,
    /// Most bytes of unsent audio that a connection may hold.
    pub max_buffer_size: usize,
    pub port: u16,
    pub log_level: String,
    pub log_format: LogFormat,
}

/// What a [`Config`] says.
#[verifier::ext_equal]
pub struct ConfigView {
    pub backend_url: Seq<char>,
    pub backend_api_key: Option<Seq<char>>,
    pub default_model: Seq<char>,
    pub default_voice: Seq<char>,
    pub chunk_size: nat,
    pub max_buffer_size: nat,
    pub port: nat,
    pub log_level: Seq<char>,
    pub log_format: LogFormat,
}

impl View for Config {
    type V = ConfigView;

    open spec fn view(&self) -> ConfigView {
        ConfigView {
            backend_url: self.backend_url@,
            backend_api_key: text_view(self.backend_api_key),
            default_model: self.default_model@,
            default_voice: self.default_voice@,
            chunk_size: self.chunk_size as nat,
            max_buffer_size: self.max_buffer_size as nat,
            port: self.port as nat,
            log_level: self.log_level@,
            log_format: self.log_format,
        }
    }
}

/// The environment variables that the bridge looks at; one that is not set, or is not
/// valid Unicode, is `None`.
#[derive(Debug, Clone, Default)]
pub struct Environment {
    /// `BACKEND_URL`
    pub backend_url: Option<String>,
    /// `BACKEND_API_KEY`
    pub backend_api_key: Option<String>,
    /// `TTS_DEFAULT_MODEL`
    pub default_model: Option<String>,
    /// `TTS_DEFAULT_VOICE`
    pub default_voice: Option<String>,
    /// `TTS_CHUNK_SIZE`
    pub chunk_size: Option<String>,
    /// `MAX_BUFFER_SIZE`
    pub max_buffer_size: Option<String>,
    /// `PORT`
    pub port: Option<String>,
    /// `LOG_LEVEL`
    pub log_level: Option<String>,
    /// `LOG_FORMAT`
    pub log_format: Option<String>,
}

/// What an [`Environment`] holds.
pub struct EnvironmentView {
    pub backend_url: Option<Seq<char>>,
    pub backend_api_key: Option<Seq<char>>,
    pub default_model: Option<Seq<char>>,
    pub default_voice: Option<Seq<char>>,
    pub chunk_size: Option<Seq<char>>,
    pub max_buffer_size: Option<Seq<char>>,
    pub port: Option<Seq<char>>,
    pub log_level: Option<Seq<char>>,
    pub log_format: Option<Seq<char>>,
}

impl View for Environment {
    type V = EnvironmentView;

    open spec fn view(&self) -> EnvironmentView {
        EnvironmentView {
            backend_url: text_view(self.backend_url),
            backend_api_key: text_view(self.backend_api_key),
            default_model: text_view(self.default_model),
            default_voice: text_view(self.default_voice),
            chunk_size: text_view(self.chunk_size),
            max_buffer_size: text_view(self.max_buffer_size),
            port: text_view(self.port),
            log_level: text_view(self.log_level),
            log_format: text_view(self.log_format),
        }
    }
}

/// The text of a variable, or a default where it is not set.
pub open spec fn text_or(value: Option<Seq<char>>, default: Seq<char>) -> Seq<char> {
    match value {
        Some(s) => s,
        None => default,
    }
}

/// The number in a variable, or a default where it is not set or holds no number up to
/// `max`.
pub open spec fn number_or(value: Option<Seq<char>>, max: nat, default: nat) -> nat {
    match value {
        Some(s) => match decimal_value(s, max) {
            Some(n) => n,
            None => default,
        },
        None => default,
    }
}

/// A log level in lower case, with `warning` written as `warn`.
pub open spec fn log_level_name(level: Seq<char>) -> Seq<char> {
    if lowercase(level) == "warning"@ {
        "warn"@
    } else {
        lowercase(level)
    }
}

/// An audio frame holds whole samples of two bytes, at least one.
pub open spec fn valid_chunk_size(n: nat) -> bool {
    n > 0 && n % 2 == 0
}

/// The settings that an environment gives, or why it gives none.
pub open spec fn configured(env: EnvironmentView) -> Result<ConfigView, Seq<char>> {
    let chunk_size = number_or(env.chunk_size, usize::MAX as nat, 4800);
    if valid_chunk_size(chunk_size) {
        Ok(
            ConfigView {
                backend_url: text_or(env.backend_url, "http://localhost:8000"@),
                backend_api_key: env.backend_api_key,
                default_model: text_or(env.default_model, "kokoro"@),
                default_voice: text_or(env.default_voice, "af_heart"@),
                chunk_size,
                max_buffer_size: number_or(env.max_buffer_size, usize::MAX as nat, 5_242_880),
                port: number_or(env.port, u16::MAX as nat, 8000),
                log_level: log_level_name(text_or(env.log_level, "info"@)),
                log_format: if lowercase(text_or(env.log_format, "json"@)) == "plain"@ {
                    LogFormat::Plain
                } else {
                    LogFormat::Json
                },
            },
        )
    } else {
        Err(
            "FATAL: TTS_CHUNK_SIZE must be a positive even number (PCM16 = 2 bytes/sample), got "@
                + decimal_text(chunk_size),
        )
    }
}

fn value_or(value: Option<String>, default: &str) -> (r: String)
    ensures
        r@ == text_or(text_view(value), default@),
{
    match value {
        Some(s) => s,
        None => default.to_owned(),
    }
}

fn parsed_or(value: Option<String>, max: u64, default: u64) -> (r: u64)
    ensures
        r as nat == number_or(text_view(value), max as nat, default as nat),
        r <= max || r == default,
{
    match value {
        Some(s) => match parse_decimal(s.as_str(), max) {
            Some(n) => n,
            None => default,
        },
        None => default,
    }
}

impl Config {
    /// The settings for an environment. The one refusal is a chunk size that is not a
    /// positive even number.
    pub fn from_env(env: Environment) -> (r: Result<Self, String>)
        ensures
            match r {
                Ok(config) => configured(env@) == Ok::<ConfigView, Seq<char>>(config@),
                Err(message) => configured(env@) == Err::<ConfigView, Seq<char>>(message@),
            },
    {
        let chunk_size: usize = parsed_or(env.chunk_size, usize::MAX as u64, 4800) as usize;
        if chunk_size == 0 || chunk_size % 2 != 0 {
            return Err(
                "FATAL: TTS_CHUNK_SIZE must be a positive even number (PCM16 = 2 bytes/sample), got ".to_owned().concat(
                decimal(chunk_size as u64).as_str()),
            );
        }
        let log_format = value_or(env.log_format, "json");
        let log_format = if same_text(to_lowercase(log_format.as_str()).as_str(), "plain") {
            LogFormat::Plain
        } else {
            LogFormat::Json
        };
        let config = Config {
            backend_url: value_or(env.backend_url, "http://localhost:8000"),
            backend_api_key: env.backend_api_key,
            default_model: value_or(env.default_model, "kokoro"),
            default_voice: value_or(env.default_voice, "af_heart"),
            chunk_size,
            max_buffer_size: parsed_or(env.max_buffer_size, usize::MAX as u64, 5_242_880) as usize,
            port: parsed_or(env.port, u16::MAX as u64, 8000) as u16,
            log_level: normalize_log_level(value_or(env.log_level, "info").as_str()),
            log_format,
        };
        Ok(config)
    }
}

/// Writes a log level as the log filter knows it: in lower case, `warning` as `warn`.
pub fn normalize_log_level(level: &str) -> (r: String)
    ensures
        r@ == log_level_name(level@),
{
    let lower = to_lowercase(level);
    if same_text(lower.as_str(), "warning") {
        "warn".to_owned()
    } else {
        lower
    }
}

/// Normalizing a log level again changes nothing: for every ASCII level, and for any other
/// that lower case leaves alone once it is in lower case.
pub proof fn law_log_levels_are_normal(level: Seq<char>)
    ensures
        is_ascii_chars(level) ==> log_level_name(log_level_name(level)) == log_level_name(level),
        lowercase(lowercase(level)) == lowercase(level) ==> log_level_name(log_level_name(level))
            == log_level_name(level),
{
    reveal_strlit("warn");
    reveal_strlit("warning");
    assert("warn"@.len() == 4 && "warning"@.len() == 7);
    assert(is_ascii_chars("warn"@));
    assert(lowercase("warn"@) =~= "warn"@);
    if is_ascii_chars(level) {
        assert(is_ascii_chars(ascii_lowercase(level)));
        assert(ascii_lowercase(ascii_lowercase(level)) =~= ascii_lowercase(level));
    }
}

/// A text that is set is taken as it is, and one that is not set has its default, whatever
/// the other variables are.
pub proof fn law_texts_are_taken(env: EnvironmentView)
    ensures
        configured(env) matches Ok(config) ==> {
            &&& env.backend_url matches Some(s) ==> config.backend_url == s
            &&& env.backend_url is None ==> config.backend_url == "http://localhost:8000"@
            &&& env.backend_api_key matches Some(s) ==> config.backend_api_key == Some(s)
            &&& env.backend_api_key is None ==> config.backend_api_key is None
            &&& env.default_model matches Some(s) ==> config.default_model == s
            &&& env.default_model is None ==> config.default_model == "kokoro"@
            &&& env.default_voice matches Some(s) ==> config.default_voice == s
            &&& env.default_voice is None ==> config.default_voice == "af_heart"@
        },
{
}

/// A number that is set and in range is taken, and one that is not set or cannot be read has
/// its default, whatever the other variables are.
pub proof fn law_numbers_are_taken(env: EnvironmentView)
    ensures
        configured(env) matches Ok(config) ==> {
            &&& env.max_buffer_size matches Some(s) ==> match decimal_value(s, usize::MAX as nat) {
                Some(n) => config.max_buffer_size == n,
                None => config.max_buffer_size == 5_242_880,
            }
            &&& env.max_buffer_size is None ==> config.max_buffer_size == 5_242_880
            &&& env.port matches Some(s) ==> match decimal_value(s, 65535) {
                Some(n) => config.port == n,
                None => config.port == 8000,
            }
            &&& env.port is None ==> config.port == 8000
        },
{
}

/// A chunk size that can be read is taken where it is positive and even, and refused, with
/// the number in the refusal, where it is not; without one the size is 4800. Nothing else
/// is ever refused.
pub proof fn law_chunk_sizes_are_checked(env: EnvironmentView)
    ensures
        ({
            let given = match env.chunk_size {
                Some(s) => decimal_value(s, usize::MAX as nat),
                None => None,
            };
            match given {
                Some(n) if n == 0 || n % 2 == 1 => configured(env) == Err::<ConfigView, Seq<char>>(
                    "FATAL: TTS_CHUNK_SIZE must be a positive even number (PCM16 = 2 bytes/sample), got "@
                        + decimal_text(n),
                ),
                Some(n) => configured(env) matches Ok(config) && config.chunk_size == n,
                None => configured(env) matches Ok(config) && config.chunk_size == 4800,
            }
        }),
{
}

/// The log level is the one that is set, or `info`, in lower case, with `warning` as `warn`;
/// logs are plain where that is asked for in letters of any case, and JSON otherwise.
pub proof fn law_log_settings(env: EnvironmentView)
    ensures
        configured(env) matches Ok(config) ==> {
            let level = match env.log_level {
                Some(s) => s,
                None => "info"@,
            };
            &&& lowercase(level) == "warning"@ ==> config.log_level == "warn"@
            &&& lowercase(level) != "warning"@ ==> config.log_level == lowercase(level)
            &&& env.log_format matches Some(s) ==> (config.log_format is Plain <==> lowercase(s)
                == "plain"@)
            &&& env.log_format is None ==> config.log_format is Json
        },
{
    reveal_strlit("json");
    reveal_strlit("plain");
    assert("json"@.len() == 4 && "plain"@.len() == 5);
    assert(is_ascii_chars("json"@));
    assert(lowercase("json"@).len() == 4);
}

/// A log level is written in lower case, and `warning` as `warn`.
pub proof fn law_log_levels_are_lowered(level: Seq<char>)
    ensures
        lowercase(level) == "warning"@ ==> log_level_name(level) == "warn"@,
        lowercase(level) != "warning"@ ==> log_level_name(level) == lowercase(level),
{
}

} // verus!
