//! A connection: what it does about client messages, backend replies and audio.
//!
//! The program around the library carries events in and actions out. While a connection
//! is idle or streaming it hands over client events as they come, those first that come
//! together with audio; while a request is out it waits for the reply; while streaming it
//! hands over what the backend's stream brings.
use crate::audio::{cut_frames, end_frame, frames_view, last_frame, remainder, whole_frames};
use crate::config::{text_or, Config, ConfigView};
use crate::frame::{FrameView, ServerFrame};
use crate::json::{get_member, Json, JsonView};
use crate::message::{
    get_text, interpret_message, message_of, message_view, parse_client_message, read_json,
    read_text, read_view, text_member, ClientMessage, MessageError, MessageErrorView, MessageView,
    Synthesis, SynthesisView,
};
use crate::session::{
    default_params, given_or, request_for, updated_params, RequestView, SessionParams, SessionView,
    SpeechRequest,
};
use crate::text::{clip, decimal, decimal_text, prefix_within, same_text, text_view};
use vstd::prelude::*;
use vstd::string::*;
use vstd::utf8::encode_utf8;

verus! {

/// Most bytes that a message from a client may have.
pub const MAX_MESSAGE_SIZE: usize = 1_048_576;

/// Most bytes of a backend's error text that are passed on.
pub const MAX_ERROR_TEXT: usize = 512;

pub enum Phase {
    /// No utterance is in progress.
    Idle,
    /// The backend was asked and has not answered.
    Requesting { utterance_id: String },
    /// The backend's audio is passed on; `pending` makes no whole frame yet.
    Streaming { utterance_id: String, pending: Vec<u8> },
    Closed,
}

#[verifier::ext_equal]
pub enum PhaseView {
    Idle,
    Requesting { utterance_id: Seq<char> },
    Streaming { utterance_id: Seq<char>, pending: Seq<u8> },
    Closed,
}

impl View for Phase {
    type V = PhaseView;

    open spec fn view(&self) -> PhaseView {
        match self {
            Phase::Idle => PhaseView::Idle,
            Phase::Requesting { utterance_id } => PhaseView::Requesting {
                utterance_id: utterance_id@,
            },
            Phase::Streaming { utterance_id, pending } => PhaseView::Streaming {
                utterance_id: utterance_id@,
                pending: pending@,
            },
            Phase::Closed => PhaseView::Closed,
        }
    }
}

pub struct Connection {
    pub session: SessionParams,
    pub phase: Phase,
}

#[verifier::ext_equal]
pub struct ConnectionView {
    pub session: SessionView,
    pub phase: PhaseView,
}

impl View for Connection {
    type V = ConnectionView;

    open spec fn view(&self) -> ConnectionView {
        ConnectionView { session: self.session@, phase: self.phase@ }
    }
}

/// What a client's side of the connection brings.
pub enum ClientEvent {
    Text(String),
    Binary,
    /// A close frame, or the end of the stream.
    Closed,
    Ping(Vec<u8>),
    Pong,
    /// A frame that could not be read.
    Failed,
}

/// A [`ClientEvent`] with its text read.
pub enum ClientInput {
    Text(Result<JsonView, Seq<char>>),
    Binary,
    Closed,
    Ping(Seq<u8>),
    Pong,
    Failed,
}

/// The input that a client event is.
pub open spec fn client_input(event: ClientEvent) -> ClientInput {
    match event {
        ClientEvent::Text(text) => ClientInput::Text(read_text(text@)),
        ClientEvent::Binary => ClientInput::Binary,
        ClientEvent::Closed => ClientInput::Closed,
        ClientEvent::Ping(data) => ClientInput::Ping(data@),
        ClientEvent::Pong => ClientInput::Pong,
        ClientEvent::Failed => ClientInput::Failed,
    }
}

/// How a backend request came out.
pub enum BackendReply {
    /// No response arrived; why.
    Failed(String),
    /// A response with that status. `error_body` is its text, for a status that is no
    /// success and where the text could be read.
    Answered { status: u16, error_body: Option<String> },
}

pub enum ReplyView {
    Failed(Seq<char>),
    Answered { status: nat, error_body: Option<Seq<char>> },
}

impl View for BackendReply {
    type V = ReplyView;

    open spec fn view(&self) -> ReplyView {
        match self {
            BackendReply::Failed(e) => ReplyView::Failed(e@),
            BackendReply::Answered { status, error_body } => ReplyView::Answered {
                status: *status as nat,
                error_body: text_view(*error_body),
            },
        }
    }
}

/// What the backend's audio stream brings.
pub enum AudioEvent {
    Bytes(Vec<u8>),
    /// The stream broke; why.
    Failed(String),
    End,
}

pub enum AudioInput {
    Bytes(Seq<u8>),
    Failed(Seq<char>),
    End,
}

impl View for AudioEvent {
    type V = AudioInput;

    open spec fn view(&self) -> AudioInput {
        match self {
            AudioEvent::Bytes(bytes) => AudioInput::Bytes(bytes@),
            AudioEvent::Failed(e) => AudioInput::Failed(e@),
            AudioEvent::End => AudioInput::End,
        }
    }
}

/// What a connection wants done.
pub enum Action {
    Request(SpeechRequest),
    Send(ServerFrame),
}

pub enum ActionView {
    Request(RequestView),
    Send(FrameView),
}

impl View for Action {
    type V = ActionView;

    open spec fn view(&self) -> ActionView {
        match self {
            Action::Request(request) => ActionView::Request(request@),
            Action::Send(frame) => ActionView::Send(frame@),
        }
    }
}

/// What a list of actions stands for.
pub open spec fn actions_view(actions: Seq<Action>) -> Seq<ActionView> {
    actions.map_values(|a: Action| a@)
}

/// Sends for frames of audio.
pub open spec fn audio_sends(frames: Seq<Seq<u8>>) -> Seq<ActionView> {
    frames.map_values(|f: Seq<u8>| ActionView::Send(FrameView::Audio(f)))
}

/// A single error frame.
pub open spec fn error_send(utterance_id: Option<Seq<char>>, message: Seq<char>) -> Seq<
    ActionView,
> {
    seq![ActionView::Send(FrameView::Error { utterance_id, message })]
}

/// A single close frame.
pub open spec fn close_send(code: nat, reason: Seq<char>) -> Seq<ActionView> {
    seq![ActionView::Send(FrameView::Close { code, reason })]
}

impl ConnectionView {
    /// A connection that was just opened.
    pub open spec fn opened(config: ConfigView) -> ConnectionView {
        ConnectionView { session: default_params(config), phase: PhaseView::Idle }
    }

    /// The same parameters in another phase.
    pub open spec fn in_phase(self, phase: PhaseView) -> ConnectionView {
        ConnectionView { session: self.session, phase }
    }

    /// The same phase under the parameters of a fresh connection.
    pub open spec fn reset(self, config: ConfigView) -> ConnectionView {
        ConnectionView { session: default_params(config), phase: self.phase }
    }

    /// Client events are handed over while no request is out.
    pub open spec fn reads_client(self) -> bool {
        self.phase is Idle || self.phase is Streaming
    }
}

/// Starts an utterance under an id: the parameters are updated first, then the backend is
/// asked.
pub open spec fn begin_step(
    config: ConfigView,
    c: ConnectionView,
    request: SynthesisView,
    utterance_id: Seq<char>,
) -> (ConnectionView, Seq<ActionView>) {
    let session = updated_params(c.session, request);
    (
        ConnectionView { session, phase: PhaseView::Requesting { utterance_id } },
        seq![ActionView::Request(request_for(config, session, request.text))],
    )
}

/// The id of an utterance: the client's own, or one made from a fresh UUID.
pub open spec fn utterance_id_for(given: Option<Seq<char>>, fresh: Seq<char>) -> Seq<char> {
    given_or(given, "u_"@ + fresh)
}

/// A client message while no utterance is in progress.
pub open spec fn idle_message_step(
    config: ConfigView,
    c: ConnectionView,
    message: Result<MessageView, MessageErrorView>,
    fresh: Seq<char>,
) -> (ConnectionView, Seq<ActionView>) {
    match message {
        Ok(MessageView::Synthesize(request)) => begin_step(
            config,
            c,
            request,
            utterance_id_for(request.utterance_id, fresh),
        ),
        Ok(MessageView::Cancel) => (c, Seq::empty()),
        Ok(MessageView::Reset) => (c.reset(config), Seq::empty()),
        Err(e) => (c, error_send(None, e.message())),
    }
}

/// What a client that asks for speech too early is told.
pub open spec fn in_progress_message(utterance_id: Seq<char>) -> Seq<char> {
    "Utterance "@ + utterance_id + " is still in progress. Send {\"type\":\"cancel\"} first."@
}

/// Whether a read text is an object whose `type` is `cancel`.
pub open spec fn is_cancel(read: Result<JsonView, Seq<char>>) -> bool {
    read matches Ok(JsonView::Object(o)) && text_member(o, "type"@) == Some("cancel"@)
}

/// Whether a read text is an object with a `text`.
pub open spec fn has_text(read: Result<JsonView, Seq<char>>) -> bool {
    read matches Ok(JsonView::Object(o)) && o.contains_key("text"@)
}

/// A client message while an utterance streams. Only a cancel touches the utterance.
pub open spec fn streaming_message_step(
    config: ConfigView,
    c: ConnectionView,
    utterance_id: Seq<char>,
    read: Result<JsonView, Seq<char>>,
) -> (ConnectionView, Seq<ActionView>) {
    if is_cancel(read) {
        (
            c.in_phase(PhaseView::Idle),
            seq![ActionView::Send(FrameView::Cancelled { utterance_id })],
        )
    } else if has_text(read) {
        (c, error_send(None, in_progress_message(utterance_id)))
    } else {
        match message_of(read) {
            Ok(MessageView::Reset) => (c.reset(config), Seq::empty()),
            Ok(_) => (c, Seq::empty()),
            Err(MessageErrorView::UnknownType(_)) => (c, Seq::empty()),
            Err(e) => (c, error_send(None, e.message())),
        }
    }
}

/// What a client event does, while client events are handed over.
pub open spec fn client_step(
    config: ConfigView,
    c: ConnectionView,
    input: ClientInput,
    fresh: Seq<char>,
) -> (ConnectionView, Seq<ActionView>) {
    match input {
        ClientInput::Text(read) => match c.phase {
            PhaseView::Streaming { utterance_id, .. } => streaming_message_step(
                config,
                c,
                utterance_id,
                read,
            ),
            _ => idle_message_step(config, c, message_of(read), fresh),
        },
        ClientInput::Binary => (
            c.in_phase(PhaseView::Closed),
            close_send(1003, "Binary frames not supported"@),
        ),
        ClientInput::Closed => (c.in_phase(PhaseView::Closed), Seq::empty()),
        ClientInput::Ping(data) => (c, seq![ActionView::Send(FrameView::Pong(data))]),
        ClientInput::Pong => (c, Seq::empty()),
        ClientInput::Failed => if c.phase is Idle {
            (c.in_phase(PhaseView::Closed), Seq::empty())
        } else {
            (c, Seq::empty())
        },
    }
}

/// The statuses that HTTP calls a success.
pub open spec fn success_status(status: nat) -> bool {
    200 <= status < 300
}

/// A backend's error text as it is passed on: cut where it is long.
pub open spec fn clipped_error(body: Option<Seq<char>>) -> Seq<char> {
    let text = text_or(body, "unable to read response body"@);
    if encode_utf8(text).len() > MAX_ERROR_TEXT {
        prefix_within(text, MAX_ERROR_TEXT as nat) + "..."@
    } else {
        text
    }
}

/// What a backend's reply does to the request that is out.
pub open spec fn reply_step(c: ConnectionView, utterance_id: Seq<char>, reply: ReplyView) -> (
    ConnectionView,
    Seq<ActionView>,
) {
    match reply {
        ReplyView::Failed(e) => (
            c.in_phase(PhaseView::Idle),
            error_send(Some(utterance_id), "Backend request failed: "@ + e),
        ),
        ReplyView::Answered { status, error_body } => if success_status(status) {
            (
                c.in_phase(PhaseView::Streaming { utterance_id, pending: Seq::empty() }),
                seq![
                    ActionView::Send(
                        FrameView::Start { utterance_id, sample_rate: c.session.sample_rate },
                    ),
                ],
            )
        } else {
            (
                c.in_phase(PhaseView::Idle),
                error_send(
                    Some(utterance_id),
                    "Backend returned "@ + decimal_text(status) + ": "@ + clipped_error(error_body),
                ),
            )
        },
    }
}

/// What a client is told when the backend's audio is more than may be held.
pub open spec fn overflow_message(max: nat) -> Seq<char> {
    "Buffer size exceeded maximum of "@ + decimal_text(max) + " bytes"@
}

/// What the backend's stream does to the utterance that streams.
pub open spec fn audio_step(
    config: ConfigView,
    c: ConnectionView,
    utterance_id: Seq<char>,
    pending: Seq<u8>,
    input: AudioInput,
) -> (ConnectionView, Seq<ActionView>) {
    match input {
        AudioInput::Bytes(bytes) => {
            let buffer = pending + bytes;
            if buffer.len() > config.max_buffer_size {
                (
                    c.in_phase(PhaseView::Closed),
                    error_send(Some(utterance_id), overflow_message(config.max_buffer_size))
                        + close_send(1011, "Buffer limit exceeded"@),
                )
            } else {
                (
                    c.in_phase(
                        PhaseView::Streaming {
                            utterance_id,
                            pending: remainder(buffer, config.chunk_size),
                        },
                    ),
                    audio_sends(whole_frames(buffer, config.chunk_size)),
                )
            }
        },
        AudioInput::Failed(e) => (
            c.in_phase(PhaseView::Idle),
            error_send(Some(utterance_id), "Backend stream error: "@ + e),
        ),
        AudioInput::End => (
            c.in_phase(PhaseView::Idle),
            (match last_frame(pending) {
                Some(frame) => seq![ActionView::Send(FrameView::Audio(frame))],
                None => Seq::empty(),
            }).push(ActionView::Send(FrameView::Done { utterance_id })),
        ),
    }
}

/// Whether a text is a random UUID: 32 hexadecimal digits in lower case, in groups of
/// eight, four, four, four and twelve, with the version and the variant in their places.
pub open spec fn is_uuid_text(s: Seq<char>) -> bool {
    s.len() == 36 && forall|i: int| #![trigger s[i]]
        0 <= i < 36 ==> if i == 8 || i == 13 || i == 18 || i == 23 {
            s[i] == '-'
        } else if i == 14 {
            s[i] == '4'
        } else if i == 19 {
            s[i] == '8' || s[i] == '9' || s[i] == 'a' || s[i] == 'b'
        } else {
            '0' <= s[i] <= '9' || 'a' <= s[i] <= 'f'
        }
}

/// Calls `uuid::Uuid::new_v4` and writes the result out. Which UUID comes is left to
/// chance; that it is one of version 4 is not.
#[verifier::external_body]
fn new_uuid() -> (r: String)
    ensures
        is_uuid_text(r@),
{
    uuid::Uuid::new_v4().to_string()
}

/// Whether a status is a success.
pub fn is_success(status: u16) -> (r: bool)
    ensures
        r == success_status(status as nat),
        r == (200 <= status < 300),
{
    200 <= status && status < 300
}

/// A single action.
fn only(action: Action) -> (r: Vec<Action>)
    ensures
        actions_view(r@) == seq![action@],
{
    let mut actions: Vec<Action> = Vec::new();
    actions.push(action);
    assert(actions_view(actions@) =~= seq![action@]);
    actions
}

/// No action.
fn nothing() -> (r: Vec<Action>)
    ensures
        actions_view(r@) == Seq::<ActionView>::empty(),
{
    let actions: Vec<Action> = Vec::new();
    assert(actions_view(actions@) =~= Seq::<ActionView>::empty());
    actions
}

/// An error frame.
fn send_error(utterance_id: Option<String>, message: String) -> (r: Vec<Action>)
    ensures
        actions_view(r@) == error_send(text_view(utterance_id), message@),
{
    only(Action::Send(ServerFrame::Error { utterance_id, message }))
}

fn has_cancel_type(read: &Result<Json, String>) -> (r: bool)
    ensures
        r == is_cancel(read_view(*read)),
{
    match read {
        Ok(Json::Object(o)) => match get_text(o, "type") {
            Some(t) => same_text(t.as_str(), "cancel"),
            None => false,
        },
        _ => false,
    }
}

fn has_text_member(read: &Result<Json, String>) -> (r: bool)
    ensures
        r == has_text(read_view(*read)),
{
    match read {
        Ok(Json::Object(o)) => get_member(o, "text").is_some(),
        _ => false,
    }
}

/// A backend's error text as it is passed on.
pub fn clip_error(body: Option<String>) -> (r: String)
    ensures
        r@ == clipped_error(text_view(body)),
{
    let text: String = match body {
        Some(text) => text,
        None => "unable to read response body".to_owned(),
    };
    if text.as_str().as_bytes().len() > MAX_ERROR_TEXT {
        clip(text.as_str(), MAX_ERROR_TEXT).to_owned().concat("...")
    } else {
        text
    }
}

impl Connection {
    /// A connection that was just opened.
    pub fn new(config: &Config) -> (r: Self)
        ensures
            r@ == ConnectionView::opened(config@),
    {
        Connection { session: SessionParams::new(config), phase: Phase::Idle }
    }

    /// Whether client events are handed over now.
    pub fn reads_client(&self) -> (r: bool)
        ensures
            r == self@.reads_client(),
    {
        matches!(self.phase, Phase::Idle | Phase::Streaming { .. })
    }

    /// Whether the backend's stream is read now.
    pub fn reads_audio(&self) -> (r: bool)
        ensures
            r == self@.phase is Streaming,
    {
        matches!(self.phase, Phase::Streaming { .. })
    }

    /// Whether the connection is over.
    pub fn is_closed(&self) -> (r: bool)
        ensures
            r == self@.phase is Closed,
    {
        matches!(self.phase, Phase::Closed)
    }

    /// Starts an utterance under an id.
    pub fn begin(&mut self, config: &Config, request: Synthesis, utterance_id: String) -> (r: Vec<
        Action,
    >)
        ensures
            (final(self)@, actions_view(r@)) == begin_step(
                config@,
                old(self)@,
                request@,
                utterance_id@,
            ),
    {
        let text = request.text.clone();
        self.session.update(request);
        self.phase = Phase::Requesting { utterance_id };
        only(Action::Request(self.session.request(config, text.as_str())))
    }

    /// A client message while no utterance is in progress. Without an id of the client's
    /// own a fresh one is made, of which no more is known than its form.
    pub fn on_idle_message(
        &mut self,
        config: &Config,
        message: Result<ClientMessage, MessageError>,
    ) -> (r: Vec<Action>)
        ensures
            exists|fresh: Seq<char>|
                is_uuid_text(fresh) && (final(self)@, actions_view(r@))
                    == #[trigger] idle_message_step(
                    config@,
                    old(self)@,
                    message_view(message),
                    fresh,
                ),
    {
        let ghost c = self@;
        // Where no id is made, the step is the same for every UUID.
        let ghost any = lemma_some_uuid();
        let ghost step = idle_message_step(config@, c, message_view(message), any);
        match message {
            Ok(ClientMessage::Synthesize(request)) => {
                let utterance_id: String = match &request.utterance_id {
                    Some(id) => id.clone(),
                    None => {
                        let fresh = new_uuid();
                        let ghost step = idle_message_step(
                            config@,
                            c,
                            message_view(message),
                            fresh@,
                        );
                        "u_".to_owned().concat(fresh.as_str())
                    },
                };
                self.begin(config, request, utterance_id)
            },
            Ok(ClientMessage::Cancel) => nothing(),
            Ok(ClientMessage::Reset) => {
                self.session = SessionParams::new(config);
                nothing()
            },
            Err(e) => send_error(None, e.message()),
        }
    }

    /// A client's text while an utterance streams.
    pub fn on_streaming_message(&mut self, config: &Config, read: Result<Json, String>) -> (r: Vec<
        Action,
    >)
        requires
            old(self)@.phase is Streaming,
        ensures
            (final(self)@, actions_view(r@)) == streaming_message_step(
                config@,
                old(self)@,
                old(self)@.phase->Streaming_utterance_id,
                read_view(read),
            ),
    {
        if has_cancel_type(&read) {
            let mut phase = Phase::Idle;
            std::mem::swap(&mut phase, &mut self.phase);
            return match phase {
                Phase::Streaming { utterance_id, .. } => only(
                    Action::Send(ServerFrame::Cancelled { utterance_id }),
                ),
                _ => nothing(),
            };
        }
        if has_text_member(&read) {
            return match &self.phase {
                Phase::Streaming { utterance_id, .. } => send_error(
                    None,
                    "Utterance ".to_owned().concat(utterance_id.as_str()).concat(
                        " is still in progress. Send {\"type\":\"cancel\"} first.",
                    ),
                ),
                _ => nothing(),
            };
        }
        match interpret_message(read) {
            Ok(ClientMessage::Reset) => {
                self.session = SessionParams::new(config);
                nothing()
            },
            Ok(_) => nothing(),
            Err(MessageError::UnknownType(_)) => nothing(),
            Err(e) => send_error(None, e.message()),
        }
    }

    /// Handles what a client's side of the connection brings.
    pub fn on_client(&mut self, config: &Config, event: ClientEvent) -> (r: Vec<Action>)
        requires
            old(self)@.reads_client(),
        ensures
            exists|fresh: Seq<char>|
                is_uuid_text(fresh) && (final(self)@, actions_view(r@)) == #[trigger] client_step(
                    config@,
                    old(self)@,
                    client_input(event),
                    fresh,
                ),
    {
        let ghost c = self@;
        // Where no id is made, the step is the same for every UUID.
        let ghost any = lemma_some_uuid();
        let ghost step = client_step(config@, c, client_input(event), any);
        match event {
            ClientEvent::Text(text) => {
                if self.reads_audio() {
                    self.on_streaming_message(config, read_json(text.as_str()))
                } else {
                    let r = self.on_idle_message(config, parse_client_message(text.as_str()));
                    proof {
                        let m = message_of(read_text(text@));
                        let fresh = choose|fresh: Seq<char>|
                            is_uuid_text(fresh) && (self@, actions_view(r@))
                                == #[trigger] idle_message_step(config@, c, m, fresh);
                        assert((self@, actions_view(r@)) == client_step(
                            config@,
                            c,
                            client_input(event),
                            fresh,
                        ));
                    }
                    r
                }
            },
            ClientEvent::Binary => {
                self.phase = Phase::Closed;
                only(
                    Action::Send(
                        ServerFrame::Close {
                            code: 1003,
                            reason: "Binary frames not supported".to_owned(),
                        },
                    ),
                )
            },
            ClientEvent::Closed => {
                self.phase = Phase::Closed;
                nothing()
            },
            ClientEvent::Ping(data) => only(Action::Send(ServerFrame::Pong(data))),
            ClientEvent::Pong => nothing(),
            ClientEvent::Failed => {
                if !self.reads_audio() {
                    self.phase = Phase::Closed;
                }
                nothing()
            },
        }
    }

    /// Handles the backend's reply to the request that is out.
    pub fn on_reply(&mut self, reply: BackendReply) -> (r: Vec<Action>)
        requires
            old(self)@.phase is Requesting,
        ensures
            (final(self)@, actions_view(r@)) == reply_step(
                old(self)@,
                old(self)@.phase->Requesting_utterance_id,
                reply@,
            ),
    {
        let mut phase = Phase::Idle;
        std::mem::swap(&mut phase, &mut self.phase);
        let utterance_id: String = match phase {
            Phase::Requesting { utterance_id } => utterance_id,
            _ => String::new(),
        };
        match reply {
            BackendReply::Failed(e) => send_error(
                Some(utterance_id),
                "Backend request failed: ".to_owned().concat(e.as_str()),
            ),
            BackendReply::Answered { status, error_body } => {
                if is_success(status) {
                    let start = ServerFrame::Start {
                        utterance_id: utterance_id.clone(),
                        sample_rate: self.session.sample_rate.clone(),
                    };
                    self.phase = Phase::Streaming { utterance_id, pending: Vec::new() };
                    only(Action::Send(start))
                } else {
                    send_error(
                        Some(utterance_id),
                        "Backend returned ".to_owned().concat(
                            decimal(status as u64).as_str(),
                        ).concat(": ").concat(clip_error(error_body).as_str()),
                    )
                }
            },
        }
    }

    /// Handles what the backend's audio stream brings.
    pub fn on_audio(&mut self, config: &Config, event: AudioEvent) -> (r: Vec<Action>)
        requires
            old(self)@.phase is Streaming,
            config.chunk_size > 0,
        ensures
            (final(self)@, actions_view(r@)) == audio_step(
                config@,
                old(self)@,
                old(self)@.phase->Streaming_utterance_id,
                old(self)@.phase->pending,
                event@,
            ),
    {
        let mut phase = Phase::Idle;
        std::mem::swap(&mut phase, &mut self.phase);
        let (utterance_id, mut pending): (String, Vec<u8>) = match phase {
            Phase::Streaming { utterance_id, pending } => (utterance_id, pending),
            _ => (String::new(), Vec::new()),
        };
        match event {
            AudioEvent::Bytes(bytes) => {
                let mut bytes: Vec<u8> = bytes;
                pending.append(&mut bytes);
                if pending.len() > config.max_buffer_size {
                    self.phase = Phase::Closed;
                    let message = "Buffer size exceeded maximum of ".to_owned().concat(
                        decimal(config.max_buffer_size as u64).as_str(),
                    ).concat(" bytes");
                    let mut actions: Vec<Action> = send_error(Some(utterance_id), message);
                    let ghost error = actions_view(actions@);
                    let close = ServerFrame::Close {
                        code: 1011,
                        reason: "Buffer limit exceeded".to_owned(),
                    };
                    actions.push(Action::Send(close));
                    assert(actions_view(actions@) =~= error.push(ActionView::Send(close@)));
                    actions
                } else {
                    let (frames, rest) = cut_frames(pending, config.chunk_size);
                    self.phase = Phase::Streaming { utterance_id, pending: rest };
                    send_frames(frames)
                }
            },
            AudioEvent::Failed(e) => send_error(
                Some(utterance_id),
                "Backend stream error: ".to_owned().concat(e.as_str()),
            ),
            AudioEvent::End => {
                let mut actions: Vec<Action> = match end_frame(pending) {
                    Some(frame) => only(Action::Send(ServerFrame::Audio(frame))),
                    None => nothing(),
                };
                let ghost audio = actions_view(actions@);
                let done = ServerFrame::Done { utterance_id };
                actions.push(Action::Send(done));
                assert(actions_view(actions@) =~= audio.push(ActionView::Send(done@)));
                actions
            },
        }
    }

    /// Notes that a frame could not be sent. Returns whether the connection is over for
    /// it, and what was still to be sent is void.
    pub fn on_send_failure(&mut self, frame: &ServerFrame) -> (r: bool)
        ensures
            r == frame@.must_arrive(),
            final(self)@ == (if r {
                old(self)@.in_phase(PhaseView::Closed)
            } else {
                old(self)@
            }),
    {
        if frame.must_arrive() {
            self.phase = Phase::Closed;
            true
        } else {
            false
        }
    }
}

/// Sends for frames of audio.
fn send_frames(frames: Vec<Vec<u8>>) -> (r: Vec<Action>)
    ensures
        actions_view(r@) == audio_sends(frames_view(frames@)),
{
    let mut actions: Vec<Action> = Vec::new();
    let ghost all = audio_sends(frames_view(frames@));
    for frame in it: frames
        invariant
            it.seq() == frames@,
            all == audio_sends(frames_view(frames@)),
            actions_view(actions@) =~= all.take(it.index()),
    {
        let ghost before = actions_view(actions@);
        actions.push(Action::Send(ServerFrame::Audio(frame)));
        assert(actions_view(actions@) =~= before.push(ActionView::Send(FrameView::Audio(frame@))));
    }
    assert(all.take(all.len() as int) =~= all);
    actions
}

proof fn lemma_some_uuid() -> (s: Seq<char>)
    ensures
        is_uuid_text(s),
{
    Seq::new(
        36,
        |i: int|
            if i == 8 || i == 13 || i == 18 || i == 23 {
                '-'
            } else if i == 14 {
                '4'
            } else {
                '8'
            },
    )
}

/// A random UUID has 36 characters: hyphens at four places, a 4 for its version, one of four
/// digits for its variant, and hexadecimal digits in lower case elsewhere.
pub proof fn law_uuid_texts_have_their_form(s: Seq<char>, i: int)
    requires
        is_uuid_text(s),
    ensures
        s.len() == 36,
        i == 8 || i == 13 || i == 18 || i == 23 ==> s[i] == '-',
        i == 14 ==> s[i] == '4',
        i == 19 ==> s[i] == '8' || s[i] == '9' || s[i] == 'a' || s[i] == 'b',
        0 <= i < 36 && s[i] != '-' ==> '0' <= s[i] <= '9' || 'a' <= s[i] <= 'f',
{
}

} // verus!
