//! Client messages: JSON texts that ask for speech or steer the connection.
use crate::json::{
    error_text, get_member, json_error_text, members, new_object, object_contents, parse_json,
    parsed_json, set_member, Json, JsonObject, JsonView,
};
use crate::text::{same_text, text_view};
use vstd::prelude::*;
use vstd::string::*;

verus! {

/// A request to speak a text. What the client left out is absent.
pub struct Synthesis {
    pub text: String,
    pub utterance_id: Option<String>,
    pub voice: Option<String>,
    pub model: Option<String>,
    pub sample_rate: Option<serde_json::Number>,
    pub language: Option<String>,
    pub speed: Option<serde_json::Number>,
    /// Members that mean nothing to the bridge; the backend gets them.
    pub extra_fields: JsonObject,
}

pub struct SynthesisView {
    pub text: Seq<char>,
    pub utterance_id: Option<Seq<char>>,
    pub voice: Option<Seq<char>>,
    pub model: Option<Seq<char>>,
    pub sample_rate: Option<serde_json::Number>,
    pub language: Option<Seq<char>>,
    pub speed: Option<serde_json::Number>,
    pub extra_fields: Map<Seq<char>, JsonView>,
}

impl View for Synthesis {
    type V = SynthesisView;

    open spec fn view(&self) -> SynthesisView {
        SynthesisView {
            text: self.text@,
            utterance_id: text_view(self.utterance_id),
            voice: text_view(self.voice),
            model: text_view(self.model),
            sample_rate: self.sample_rate,
            language: text_view(self.language),
            speed: self.speed,
            extra_fields: object_contents(self.extra_fields),
        }
    }
}

pub enum ClientMessage {
    Synthesize(Synthesis),
    Cancel,
    Reset,
}

pub enum MessageView {
    Synthesize(SynthesisView),
    Cancel,
    Reset,
}

impl View for ClientMessage {
    type V = MessageView;

    open spec fn view(&self) -> MessageView {
        match self {
            ClientMessage::Synthesize(s) => MessageView::Synthesize(s@),
            ClientMessage::Cancel => MessageView::Cancel,
            ClientMessage::Reset => MessageView::Reset,
        }
    }
}

/// Why a text is no client message.
pub enum MessageError {
    /// The text is no JSON; what is wrong with it.
    InvalidJson(String),
    NotAnObject,
    /// The `type` that no message has.
    UnknownType(String),
    MissingText,
}

pub enum MessageErrorView {
    InvalidJson(Seq<char>),
    NotAnObject,
    UnknownType(Seq<char>),
    MissingText,
}

impl View for MessageError {
    type V = MessageErrorView;

    open spec fn view(&self) -> MessageErrorView {
        match self {
            MessageError::InvalidJson(e) => MessageErrorView::InvalidJson(e@),
            MessageError::NotAnObject => MessageErrorView::NotAnObject,
            MessageError::UnknownType(t) => MessageErrorView::UnknownType(t@),
            MessageError::MissingText => MessageErrorView::MissingText,
        }
    }
}

impl MessageErrorView {
    /// What the client is told.
    pub open spec fn message(self) -> Seq<char> {
        match self {
            MessageErrorView::InvalidJson(e) => "Invalid JSON: "@ + e,
            MessageErrorView::NotAnObject => "Expected JSON object"@,
            MessageErrorView::UnknownType(t) => "Unknown message type: \""@ + t + "\""@,
            MessageErrorView::MissingText => "Missing required field: \"text\""@,
        }
    }
}

impl MessageError {
    /// What the client is told.
    pub fn message(&self) -> (r: String)
        ensures
            r@ == self@.message(),
    {
        match self {
            MessageError::InvalidJson(e) => "Invalid JSON: ".to_owned().concat(e.as_str()),
            MessageError::NotAnObject => "Expected JSON object".to_owned(),
            MessageError::UnknownType(t) => "Unknown message type: \"".to_owned().concat(
                t.as_str(),
            ).concat("\""),
            MessageError::MissingText => "Missing required field: \"text\"".to_owned(),
        }
    }
}

/// A client's text read as JSON, or what is wrong with it.
pub open spec fn read_text(text: Seq<char>) -> Result<JsonView, Seq<char>> {
    match parsed_json(text) {
        Ok(j) => Ok(j),
        Err(e) => Err(json_error_text(e)),
    }
}

/// What the outcome of reading a text stands for.
pub open spec fn read_view(read: Result<Json, String>) -> Result<JsonView, Seq<char>> {
    match read {
        Ok(j) => Ok(j@),
        Err(e) => Err(e@),
    }
}

/// The member of that name, where it is a text.
pub open spec fn text_member(o: Map<Seq<char>, JsonView>, name: Seq<char>) -> Option<Seq<char>> {
    if o.contains_key(name) {
        match o[name] {
            JsonView::Text(s) => Some(s),
            _ => None,
        }
    } else {
        None
    }
}

/// The member of that name, where it is a number.
pub open spec fn number_member(o: Map<Seq<char>, JsonView>, name: Seq<char>) -> Option<
    serde_json::Number,
> {
    if o.contains_key(name) {
        match o[name] {
            JsonView::Number(n) => Some(n),
            _ => None,
        }
    } else {
        None
    }
}

/// Members that say what to do with a message; no backend gets them.
pub open spec fn is_control_field(name: Seq<char>) -> bool {
    name == "text"@ || name == "type"@ || name == "utterance_id"@
}

/// Members that stay in force for later utterances under a meaning of their own.
pub open spec fn is_sticky_field(name: Seq<char>) -> bool {
    name == "voice"@ || name == "model"@ || name == "sample_rate"@ || name == "language"@ || name
        == "speed"@
}

/// The members that mean nothing to the bridge.
pub open spec fn extra_members(o: Map<Seq<char>, JsonView>) -> Map<Seq<char>, JsonView> {
    o.restrict(Set::new(|name: Seq<char>| !is_control_field(name) && !is_sticky_field(name)))
}

/// The request that an object without a `type` makes, given its text.
pub open spec fn synthesis_of(o: Map<Seq<char>, JsonView>, text: Seq<char>) -> SynthesisView {
    SynthesisView {
        text,
        utterance_id: text_member(o, "utterance_id"@),
        voice: text_member(o, "voice"@),
        model: text_member(o, "model"@),
        sample_rate: number_member(o, "sample_rate"@),
        language: text_member(o, "language"@),
        speed: number_member(o, "speed"@),
        extra_fields: extra_members(o),
    }
}

/// The message that a read text is, or why it is none. A `type` that is a text decides
/// alone; without one the message is a request to speak, which needs a `text`.
pub open spec fn message_of(read: Result<JsonView, Seq<char>>) -> Result<
    MessageView,
    MessageErrorView,
> {
    match read {
        Err(e) => Err(MessageErrorView::InvalidJson(e)),
        Ok(JsonView::Object(o)) => match text_member(o, "type"@) {
            Some(t) => if t == "cancel"@ {
                Ok(MessageView::Cancel)
            } else if t == "reset"@ {
                Ok(MessageView::Reset)
            } else {
                Err(MessageErrorView::UnknownType(t))
            },
            None => match text_member(o, "text"@) {
                Some(text) => Ok(MessageView::Synthesize(synthesis_of(o, text))),
                None => Err(MessageErrorView::MissingText),
            },
        },
        Ok(_) => Err(MessageErrorView::NotAnObject),
    }
}

/// What the outcome of reading a message stands for.
pub open spec fn message_view(r: Result<ClientMessage, MessageError>) -> Result<
    MessageView,
    MessageErrorView,
> {
    match r {
        Ok(m) => Ok(m@),
        Err(e) => Err(e@),
    }
}

/// Reads a text as JSON.
pub fn read_json(text: &str) -> (r: Result<Json, String>)
    ensures
        read_view(r) == read_text(text@),
{
    match parse_json(text) {
        Ok(j) => Ok(j),
        Err(e) => Err(error_text(&e)),
    }
}

pub(crate) fn get_text(o: &JsonObject, name: &str) -> (r: Option<String>)
    ensures
        text_view(r) == text_member(object_contents(*o), name@),
{
    match get_member(o, name) {
        Some(Json::Text(s)) => Some(s),
        _ => None,
    }
}

fn get_number(o: &JsonObject, name: &str) -> (r: Option<serde_json::Number>)
    ensures
        r == number_member(object_contents(*o), name@),
{
    match get_member(o, name) {
        Some(Json::Number(n)) => Some(n),
        _ => None,
    }
}

fn is_extra(name: &str) -> (r: bool)
    ensures
        r == (!is_control_field(name@) && !is_sticky_field(name@)),
{
    !(same_text(name, "text") || same_text(name, "type") || same_text(name, "utterance_id")
        || same_text(name, "voice") || same_text(name, "model") || same_text(name, "sample_rate")
        || same_text(name, "language") || same_text(name, "speed"))
}

/// Sets in `to` every member of `from`, or those alone that mean nothing to the bridge.
pub(crate) fn copy_members(from: &JsonObject, to: &mut JsonObject, extras_only: bool)
    ensures
        object_contents(*final(to)) == object_contents(*old(to)).union_prefer_right(
            if extras_only {
                extra_members(object_contents(*from))
            } else {
                object_contents(*from)
            },
        ),
{
    let ghost source = if extras_only {
        extra_members(object_contents(*from))
    } else {
        object_contents(*from)
    };
    let ghost before = object_contents(*to);
    let mut left = members(from);
    let ghost all = left@;
    assert(all.take(all.len() as int) =~= all);
    while left.len() > 0
        invariant
            left@.len() <= all.len(),
            left@ == all.take(left@.len() as int),
            forall|i: int, j: int| 0 <= i < j < all.len() ==> all[i].0@ != all[j].0@,
            forall|i: int| #![trigger all[i]]
                0 <= i < all.len() ==> object_contents(*from).contains_key(all[i].0@)
                    && object_contents(*from)[all[i].0@] == all[i].1@,
            source == (if extras_only {
                extra_members(object_contents(*from))
            } else {
                object_contents(*from)
            }),
            forall|k: Seq<char>| #[trigger]
                object_contents(*to).contains_key(k) <==> before.contains_key(k) || (
                source.contains_key(k) && exists|i: int|
                    left@.len() <= i < all.len() && #[trigger] all[i].0@ == k),
            forall|k: Seq<char>| #[trigger]
                object_contents(*to).contains_key(k) ==> object_contents(*to)[k] == (if source.contains_key(k)
                    && exists|i: int| left@.len() <= i < all.len() && #[trigger] all[i].0@ == k {
                    source[k]
                } else {
                    before[k]
                }),
        decreases left@.len(),
    {
        let ghost n = left@.len();
        match left.pop() {
            Some((name, value)) => {
                assert(all[n - 1].0@ == name@);
                if !extras_only || is_extra(name.as_str()) {
                    set_member(to, name, value);
                }
            },
            None => {},
        }
    }
    assert forall|k: Seq<char>| #[trigger] source.contains_key(k) implies exists|i: int|
        0 <= i < all.len() && #[trigger] all[i].0@ == k by {
        assert(object_contents(*from).contains_key(k));
    }
    assert(object_contents(*to) =~= before.union_prefer_right(source));
}

/// The message that a read text is.
pub fn interpret_message(read: Result<Json, String>) -> (r: Result<ClientMessage, MessageError>)
    ensures
        message_view(r) == message_of(read_view(read)),
{
    let o: JsonObject = match read {
        Ok(Json::Object(o)) => o,
        Ok(_) => return Err(MessageError::NotAnObject),
        Err(e) => return Err(MessageError::InvalidJson(e)),
    };
    if let Some(t) = get_text(&o, "type") {
        if same_text(t.as_str(), "cancel") {
            return Ok(ClientMessage::Cancel);
        } else if same_text(t.as_str(), "reset") {
            return Ok(ClientMessage::Reset);
        } else {
            return Err(MessageError::UnknownType(t));
        }
    }
    let text: String = match get_text(&o, "text") {
        Some(text) => text,
        None => return Err(MessageError::MissingText),
    };
    let mut extra_fields = new_object();
    copy_members(&o, &mut extra_fields, true);
    let synthesis = Synthesis {
        text,
        utterance_id: get_text(&o, "utterance_id"),
        voice: get_text(&o, "voice"),
        model: get_text(&o, "model"),
        sample_rate: get_number(&o, "sample_rate"),
        language: get_text(&o, "language"),
        speed: get_number(&o, "speed"),
        extra_fields,
    };
    proof {
        assert(object_contents(extra_fields) =~= extra_members(object_contents(o)));
    }
    Ok(ClientMessage::Synthesize(synthesis))
}

/// Reads a client's text as a message.
pub fn parse_client_message(text: &str) -> (r: Result<ClientMessage, MessageError>)
    ensures
        message_view(r) == message_of(read_text(text@)),
{
    interpret_message(read_json(text))
}

} // verus!
