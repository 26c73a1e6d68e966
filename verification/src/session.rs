//! Speech parameters that stay in force on a connection, and the backend requests that
//! they make.
use crate::config::{Config, ConfigView};
use crate::json::{
    as_float, float_number, json_number, new_object, number, object_contents, set_number, set_text,
    JsonObject, JsonView,
};
use crate::message::{copy_members, Synthesis, SynthesisView};
use crate::text::text_view;
use vstd::prelude::*;
use vstd::string::*;

verus! {

pub struct SessionParams {
    pub voice: String,
    pub model: String,
    pub sample_rate: serde_json::Number,
    pub language: String,
    pub speed: serde_json::Number,
    /// Members that mean nothing to the bridge, from this and earlier messages.
    pub extras: JsonObject,
}

#[verifier::ext_equal]
pub struct SessionView {
    pub voice: Seq<char>,
    pub model: Seq<char>,
    pub sample_rate: serde_json::Number,
    pub language: Seq<char>,
    pub speed: serde_json::Number,
    pub extras: Map<Seq<char>, JsonView>,
}

impl View for SessionParams {
    type V = SessionView;

    open spec fn view(&self) -> SessionView {
        SessionView {
            voice: self.voice@,
            model: self.model@,
            sample_rate: self.sample_rate,
            language: self.language@,
            speed: self.speed,
            extras: object_contents(self.extras),
        }
    }
}

/// The parameters of a connection on which nothing was said yet: the configured voice
/// and model, 24000 Hz, English, normal speed, nothing else.
pub open spec fn default_params(config: ConfigView) -> SessionView {
    SessionView {
        voice: config.default_voice,
        model: config.default_model,
        sample_rate: json_number(24000),
        language: "en"@,
        speed: float_number(json_number(1))->0,
        extras: Map::empty(),
    }
}

/// The new value where there is one, else the one in force.
pub open spec fn given_or<T>(given: Option<T>, current: T) -> T {
    match given {
        Some(v) => v,
        None => current,
    }
}

/// The parameters in force after a request: what it gives replaces what stood, what it
/// leaves out stays.
pub open spec fn updated_params(s: SessionView, request: SynthesisView) -> SessionView {
    SessionView {
        voice: given_or(request.voice, s.voice),
        model: given_or(request.model, s.model),
        sample_rate: given_or(request.sample_rate, s.sample_rate),
        language: given_or(request.language, s.language),
        speed: given_or(request.speed, s.speed),
        extras: s.extras.union_prefer_right(request.extra_fields),
    }
}

/// The body of a backend request. Members of the bridge's own stand above those that
/// the client added.
pub open spec fn request_fields(s: SessionView, text: Seq<char>) -> Map<Seq<char>, JsonView> {
    s.extras.insert("model"@, JsonView::Text(s.model)).insert(
        "voice"@,
        JsonView::Text(s.voice),
    ).insert("input"@, JsonView::Text(text)).insert(
        "response_format"@,
        JsonView::Text("pcm"@),
    ).insert("speed"@, JsonView::Number(s.speed)).insert(
        "sample_rate"@,
        JsonView::Number(s.sample_rate),
    ).insert("language"@, JsonView::Text(s.language))
}

/// A `POST` to the backend: where to, the bearer token if there is one, the JSON body.
pub struct SpeechRequest {
    pub url: String,
    pub bearer: Option<String>,
    pub body: JsonObject,
}

pub struct RequestView {
    pub url: Seq<char>,
    pub bearer: Option<Seq<char>>,
    pub body: Map<Seq<char>, JsonView>,
}

impl View for SpeechRequest {
    type V = RequestView;

    open spec fn view(&self) -> RequestView {
        RequestView {
            url: self.url@,
            bearer: text_view(self.bearer),
            body: object_contents(self.body),
        }
    }
}

/// The backend request for a text under the parameters in force.
pub open spec fn request_for(config: ConfigView, s: SessionView, text: Seq<char>) -> RequestView {
    RequestView {
        url: config.backend_url + "/v1/audio/speech"@,
        bearer: config.backend_api_key,
        body: request_fields(s, text),
    }
}

impl SessionParams {
    /// The parameters of a fresh connection.
    pub fn new(config: &Config) -> (r: Self)
        ensures
            r@ == default_params(config@),
            float_number(json_number(1)) == Some(r.speed),
    {
        let one = number(1);
        SessionParams {
            voice: config.default_voice.clone(),
            model: config.default_model.clone(),
            sample_rate: number(24000),
            language: "en".to_owned(),
            speed: match as_float(&one) {
                Some(speed) => speed,
                None => one,
            },
            extras: new_object(),
        }
    }

    /// Puts into force what a request gives.
    pub fn update(&mut self, request: Synthesis)
        ensures
            final(self)@ == updated_params(old(self)@, request@),
    {
        if let Some(voice) = request.voice {
            self.voice = voice;
        }
        if let Some(model) = request.model {
            self.model = model;
        }
        if let Some(sample_rate) = request.sample_rate {
            self.sample_rate = sample_rate;
        }
        if let Some(language) = request.language {
            self.language = language;
        }
        if let Some(speed) = request.speed {
            self.speed = speed;
        }
        copy_members(&request.extra_fields, &mut self.extras, false);
    }

    /// The body of the backend request for a text.
    pub fn request_body(&self, text: &str) -> (r: JsonObject)
        ensures
            object_contents(r) == request_fields(self@, text@),
    {
        let mut body = new_object();
        copy_members(&self.extras, &mut body, false);
        assert(object_contents(body) =~= self@.extras);
        set_text(&mut body, "model", self.model.as_str());
        set_text(&mut body, "voice", self.voice.as_str());
        set_text(&mut body, "input", text);
        set_text(&mut body, "response_format", "pcm");
        set_number(&mut body, "speed", &self.speed);
        set_number(&mut body, "sample_rate", &self.sample_rate);
        set_text(&mut body, "language", self.language.as_str());
        body
    }

    /// The backend request for a text.
    pub fn request(&self, config: &Config, text: &str) -> (r: SpeechRequest)
        ensures
            r@ == request_for(config@, self@, text@),
    {
        SpeechRequest {
            url: config.backend_url.clone().concat("/v1/audio/speech"),
            bearer: config.backend_api_key.clone(),
            body: self.request_body(text),
        }
    }
}

} // verus!
