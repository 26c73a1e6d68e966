//! What the library's values stand for: every part of a value, under its own name.
use crate::audio::frames_view;
use crate::config::{Config, Environment};
use crate::frame::{FrameView, ServerFrame};
use crate::json::{json_error_text, object_contents, parsed_json, Json, JsonView};
use crate::message::{
    message_view, read_text, read_view, ClientMessage, MessageError, MessageErrorView, MessageView,
    Synthesis,
};
use crate::proxy::{
    actions_view, client_input, Action, ActionView, AudioEvent, AudioInput, BackendReply,
    ClientEvent, ClientInput, Connection, Phase, PhaseView, ReplyView,
};
use crate::session::{SessionParams, SpeechRequest};
use crate::text::text_view;
use vstd::prelude::*;

verus! {

/// A text that may be absent stands for its characters, or for none.
pub proof fn law_absent_texts(s: String)
    ensures
        text_view(Some(s)) == Some(s@),
        text_view(None) == None::<Seq<char>>,
{
}

/// A configuration stands for all of its settings.
pub proof fn law_configs(c: Config)
    ensures
        c@.backend_url == c.backend_url@,
        c@.backend_api_key == text_view(c.backend_api_key),
        c@.default_model == c.default_model@,
        c@.default_voice == c.default_voice@,
        c@.chunk_size == c.chunk_size,
        c@.max_buffer_size == c.max_buffer_size,
        c@.port == c.port,
        c@.log_level == c.log_level@,
        c@.log_format == c.log_format,
{
}

/// An environment stands for all of its variables.
pub proof fn law_environments(e: Environment)
    ensures
        e@.backend_url == text_view(e.backend_url),
        e@.backend_api_key == text_view(e.backend_api_key),
        e@.default_model == text_view(e.default_model),
        e@.default_voice == text_view(e.default_voice),
        e@.chunk_size == text_view(e.chunk_size),
        e@.max_buffer_size == text_view(e.max_buffer_size),
        e@.port == text_view(e.port),
        e@.log_level == text_view(e.log_level),
        e@.log_format == text_view(e.log_format),
{
}

/// A JSON value stands for what it holds; an object for its members.
pub proof fn law_json_values(j: Json)
    ensures
        match j {
            Json::Null => j@ is Null,
            Json::Bool(b) => j@ == JsonView::Bool(b),
            Json::Number(n) => j@ == JsonView::Number(n),
            Json::Text(s) => j@ == JsonView::Text(s@),
            Json::Array(items) => j@ == JsonView::Array(items@),
            Json::Object(o) => j@ == JsonView::Object(object_contents(o)),
        },
{
}

/// Reading a text gives the value that `serde_json` reads in it, or what it says is wrong.
pub proof fn law_texts_are_read(text: Seq<char>, read: Result<Json, String>)
    ensures
        parsed_json(text) matches Ok(j) ==> read_text(text) == Ok::<JsonView, Seq<char>>(j),
        parsed_json(text) matches Err(e) ==> read_text(text) == Err::<JsonView, Seq<char>>(
            json_error_text(e),
        ),
        read matches Ok(j) ==> read_view(read) == Ok::<JsonView, Seq<char>>(j@),
        read matches Err(e) ==> read_view(read) == Err::<JsonView, Seq<char>>(e@),
{
}

/// A request to speak stands for all that it gives.
pub proof fn law_syntheses(s: Synthesis)
    ensures
        s@.text == s.text@,
        s@.utterance_id == text_view(s.utterance_id),
        s@.voice == text_view(s.voice),
        s@.model == text_view(s.model),
        s@.sample_rate == s.sample_rate,
        s@.language == text_view(s.language),
        s@.speed == s.speed,
        s@.extra_fields == object_contents(s.extra_fields),
{
}

/// A message stands for its kind and what it holds, a fault for its kind and its words.
pub proof fn law_messages(m: ClientMessage, e: MessageError)
    ensures
        match m {
            ClientMessage::Synthesize(s) => m@ == MessageView::Synthesize(s@),
            ClientMessage::Cancel => m@ is Cancel,
            ClientMessage::Reset => m@ is Reset,
        },
        match e {
            MessageError::InvalidJson(s) => e@ == MessageErrorView::InvalidJson(s@),
            MessageError::NotAnObject => e@ is NotAnObject,
            MessageError::UnknownType(s) => e@ == MessageErrorView::UnknownType(s@),
            MessageError::MissingText => e@ is MissingText,
        },
        message_view(Ok(m)) == Ok::<MessageView, MessageErrorView>(m@),
        message_view(Err(e)) == Err::<MessageView, MessageErrorView>(e@),
{
}

/// Parameters stand for all that is in force.
pub proof fn law_sessions(s: SessionParams)
    ensures
        s@.voice == s.voice@,
        s@.model == s.model@,
        s@.sample_rate == s.sample_rate,
        s@.language == s.language@,
        s@.speed == s.speed,
        s@.extras == object_contents(s.extras),
{
}

/// A backend request stands for where it goes, its token and the members of its body.
pub proof fn law_requests(r: SpeechRequest)
    ensures
        r@.url == r.url@,
        r@.bearer == text_view(r.bearer),
        r@.body == object_contents(r.body),
{
}

/// A frame stands for its kind and all that it carries.
pub proof fn law_frames(f: ServerFrame)
    ensures
        match f {
            ServerFrame::Start { utterance_id, sample_rate } => f@ == (FrameView::Start {
                utterance_id: utterance_id@,
                sample_rate,
            }),
            ServerFrame::Audio(bytes) => f@ == FrameView::Audio(bytes@),
            ServerFrame::Done { utterance_id } => f@ == (FrameView::Done {
                utterance_id: utterance_id@,
            }),
            ServerFrame::Cancelled { utterance_id } => f@ == (FrameView::Cancelled {
                utterance_id: utterance_id@,
            }),
            ServerFrame::Error { utterance_id, message } => f@ == (FrameView::Error {
                utterance_id: text_view(utterance_id),
                message: message@,
            }),
            ServerFrame::Pong(data) => f@ == FrameView::Pong(data@),
            ServerFrame::Close { code, reason } => f@ == (FrameView::Close {
                code: code as nat,
                reason: reason@,
            }),
        },
{
}

/// A connection stands for its parameters and its phase, with the id and the audio of that.
pub proof fn law_connections(c: Connection)
    ensures
        c@.session == c.session@,
        match c.phase {
            Phase::Idle => c@.phase is Idle,
            Phase::Requesting { utterance_id } => c@.phase == (PhaseView::Requesting {
                utterance_id: utterance_id@,
            }),
            Phase::Streaming { utterance_id, pending } => c@.phase == (PhaseView::Streaming {
                utterance_id: utterance_id@,
                pending: pending@,
            }),
            Phase::Closed => c@.phase is Closed,
        },
{
}

/// A client event is an input of its own kind: a text as it is read, a ping with its bytes.
pub proof fn law_client_events(e: ClientEvent)
    ensures
        match e {
            ClientEvent::Text(text) => client_input(e) == ClientInput::Text(read_text(text@)),
            ClientEvent::Binary => client_input(e) is Binary,
            ClientEvent::Closed => client_input(e) is Closed,
            ClientEvent::Ping(data) => client_input(e) == ClientInput::Ping(data@),
            ClientEvent::Pong => client_input(e) is Pong,
            ClientEvent::Failed => client_input(e) is Failed,
        },
{
}

/// What a backend brings stands for its kind and all that it carries.
pub proof fn law_backend_events(r: BackendReply, a: AudioEvent)
    ensures
        match r {
            BackendReply::Failed(e) => r@ == ReplyView::Failed(e@),
            BackendReply::Answered { status, error_body } => r@ == (ReplyView::Answered {
                status: status as nat,
                error_body: text_view(error_body),
            }),
        },
        match a {
            AudioEvent::Bytes(bytes) => a@ == AudioInput::Bytes(bytes@),
            AudioEvent::Failed(e) => a@ == AudioInput::Failed(e@),
            AudioEvent::End => a@ is End,
        },
{
}

/// Actions stand for their requests and frames, each in its place.
pub proof fn law_actions(actions: Seq<Action>, i: int)
    ensures
        actions_view(actions).len() == actions.len(),
        0 <= i < actions.len() ==> match actions[i] {
            Action::Request(request) => actions_view(actions)[i] == ActionView::Request(request@),
            Action::Send(frame) => actions_view(actions)[i] == ActionView::Send(frame@),
        },
{
}

/// Frames of audio stand for their bytes, each in its place.
pub proof fn law_audio(frames: Seq<Vec<u8>>, i: int)
    ensures
        frames_view(frames).len() == frames.len(),
        0 <= i < frames.len() ==> frames_view(frames)[i] == frames[i]@,
{
}

} // verus!
