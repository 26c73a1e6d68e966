//! What each operation gives, said of what goes in: members of messages, statuses, bytes.
use crate::audio::{last_frame, padded, remainder, whole_frames};
use crate::config::ConfigView;
use crate::frame::FrameView;
use crate::json::{float_number, json_number, JsonView};
use crate::message::{message_of, MessageErrorView, MessageView, SynthesisView};
use crate::proxy::{
    audio_step, begin_step, client_step, clipped_error, idle_message_step, reply_step,
    streaming_message_step, ActionView, AudioInput, ClientInput, ConnectionView, PhaseView,
    ReplyView,
};
use crate::session::{default_params, request_fields, request_for, updated_params, SessionView};
use crate::text::{
    all_digits, decimal_text, decimal_value, digits_value, is_digit, prefix_within,
};
use vstd::arithmetic::div_mod::{lemma_basic_div, lemma_div_minus_one, lemma_fundamental_div_mod};
use vstd::prelude::*;
use vstd::utf8::encode_utf8;

verus! {

/// Whether an object has a text under a name.
pub open spec fn text_in(o: Map<Seq<char>, JsonView>, name: Seq<char>) -> bool {
    o.contains_key(name) && o[name] is Text
}

/// Whether an object has a number under a name.
pub open spec fn number_in(o: Map<Seq<char>, JsonView>, name: Seq<char>) -> bool {
    o.contains_key(name) && o[name] is Number
}

/// Whether an object asks for speech: it has a `text`, and no `type` that could say
/// otherwise.
pub open spec fn asks_for_speech(o: Map<Seq<char>, JsonView>) -> bool {
    !text_in(o, "type"@) && text_in(o, "text"@)
}

/// A single frame to be sent.
pub open spec fn sends(actions: Seq<ActionView>, frame: FrameView) -> bool {
    actions.len() == 1 && actions[0] == ActionView::Send(frame)
}

proof fn lemma_names()
    ensures
        "text"@.len() == 4,
        "type"@.len() == 4,
        "utterance_id"@.len() == 12,
        "voice"@.len() == 5,
        "model"@.len() == 5,
        "sample_rate"@.len() == 11,
        "language"@.len() == 8,
        "speed"@.len() == 5,
        "input"@.len() == 5,
        "response_format"@.len() == 15,
        "text"@[1] == 'e',
        "type"@[1] == 'y',
        "voice"@[0] == 'v',
        "model"@[0] == 'm',
        "speed"@[0] == 's',
        "input"@[0] == 'i',
{
    reveal_strlit("text");
    reveal_strlit("type");
    reveal_strlit("utterance_id");
    reveal_strlit("voice");
    reveal_strlit("model");
    reveal_strlit("sample_rate");
    reveal_strlit("language");
    reveal_strlit("speed");
    reveal_strlit("input");
    reveal_strlit("response_format");
}

/// On an idle connection every text under `text` is asked for, of any length and with
/// anything beside it: one request, to the speech endpoint of the backend, under the
/// configured token, for that text. The utterance bears the client's id, or one made from
/// the fresh UUID.
pub proof fn law_speech_is_requested(
    config: ConfigView,
    c: ConnectionView,
    o: Map<Seq<char>, JsonView>,
    fresh: Seq<char>,
)
    requires
        c.phase is Idle,
        asks_for_speech(o),
    ensures
        ({
            let (after, actions) = client_step(
                config,
                c,
                ClientInput::Text(Ok(JsonView::Object(o))),
                fresh,
            );
            &&& actions.len() == 1
            &&& actions[0] matches ActionView::Request(request) && {
                &&& request.url == config.backend_url + "/v1/audio/speech"@
                &&& request.bearer == config.backend_api_key
                &&& request.body.contains_key("input"@)
                &&& request.body["input"@] == o["text"@]
            }
            &&& after.phase == PhaseView::Requesting {
                utterance_id: if text_in(o, "utterance_id"@) {
                    o["utterance_id"@]->Text_0
                } else {
                    "u_"@ + fresh
                },
            }
        }),
{
    lemma_names();
}

/// The body of a request for speech, name by name. `input` is the text and
/// `response_format` is PCM; a parameter is what the message gives, in the form that the
/// parameter has, else what was in force; any other member is what the message gives, else
/// what was in force, except that what steers the bridge is not taken from the message.
pub proof fn law_request_body_is_made_of(
    config: ConfigView,
    c: ConnectionView,
    o: Map<Seq<char>, JsonView>,
    fresh: Seq<char>,
    name: Seq<char>,
)
    requires
        c.phase is Idle,
        asks_for_speech(o),
    ensures
        ({
            let actions = client_step(
                config,
                c,
                ClientInput::Text(Ok(JsonView::Object(o))),
                fresh,
            ).1;
            let body = actions[0]->Request_0.body;
            let s = c.session;
            &&& actions.len() == 1 && actions[0] is Request
            &&& if name == "input"@ {
                body.contains_key(name) && body[name] == o["text"@]
            } else if name == "response_format"@ {
                body.contains_key(name) && body[name] == JsonView::Text("pcm"@)
            } else if name == "voice"@ {
                body.contains_key(name) && body[name] == if text_in(o, "voice"@) {
                    o["voice"@]
                } else {
                    JsonView::Text(s.voice)
                }
            } else if name == "model"@ {
                body.contains_key(name) && body[name] == if text_in(o, "model"@) {
                    o["model"@]
                } else {
                    JsonView::Text(s.model)
                }
            } else if name == "language"@ {
                body.contains_key(name) && body[name] == if text_in(o, "language"@) {
                    o["language"@]
                } else {
                    JsonView::Text(s.language)
                }
            } else if name == "sample_rate"@ {
                body.contains_key(name) && body[name] == if number_in(o, "sample_rate"@) {
                    o["sample_rate"@]
                } else {
                    JsonView::Number(s.sample_rate)
                }
            } else if name == "speed"@ {
                body.contains_key(name) && body[name] == if number_in(o, "speed"@) {
                    o["speed"@]
                } else {
                    JsonView::Number(s.speed)
                }
            } else if o.contains_key(name) && name != "text"@ && name != "type"@ && name
                != "utterance_id"@ {
                body.contains_key(name) && body[name] == o[name]
            } else if s.extras.contains_key(name) {
                body.contains_key(name) && body[name] == s.extras[name]
            } else {
                !body.contains_key(name)
            }
        }),
{
    lemma_names();
}

/// What is in force after a request for speech: what the message gives, in the form that
/// the parameter has, else what was in force before.
pub proof fn law_request_puts_into_force(
    config: ConfigView,
    c: ConnectionView,
    o: Map<Seq<char>, JsonView>,
    fresh: Seq<char>,
)
    requires
        c.phase is Idle,
        asks_for_speech(o),
    ensures
        ({
            let s = c.session;
            let t = client_step(
                config,
                c,
                ClientInput::Text(Ok(JsonView::Object(o))),
                fresh,
            ).0.session;
            &&& t.voice == if text_in(o, "voice"@) {
                o["voice"@]->Text_0
            } else {
                s.voice
            }
            &&& t.model == if text_in(o, "model"@) {
                o["model"@]->Text_0
            } else {
                s.model
            }
            &&& t.language == if text_in(o, "language"@) {
                o["language"@]->Text_0
            } else {
                s.language
            }
            &&& t.sample_rate == if number_in(o, "sample_rate"@) {
                o["sample_rate"@]->Number_0
            } else {
                s.sample_rate
            }
            &&& t.speed == if number_in(o, "speed"@) {
                o["speed"@]->Number_0
            } else {
                s.speed
            }
            &&& forall|name: Seq<char>|
                if o.contains_key(name) && name != "text"@ && name != "type"@ && name
                    != "utterance_id"@ && name != "voice"@ && name != "model"@ && name
                    != "sample_rate"@ && name != "language"@ && name != "speed"@ {
                    #[trigger] t.extras.contains_key(name) && t.extras[name] == o[name]
                } else {
                    (t.extras.contains_key(name) <==> s.extras.contains_key(name)) && (
                    s.extras.contains_key(name) ==> t.extras[name] == s.extras[name])
                }
        }),
{
    lemma_names();
}

/// The whole body that asks for a text and nothing else under the defaults.
pub open spec fn default_body(config: ConfigView, text: Seq<char>) -> Map<Seq<char>, JsonView> {
    Map::empty().insert("input"@, JsonView::Text(text)).insert(
        "voice"@,
        JsonView::Text(config.default_voice),
    ).insert("model"@, JsonView::Text(config.default_model)).insert(
        "language"@,
        JsonView::Text("en"@),
    ).insert("sample_rate"@, JsonView::Number(json_number(24000))).insert(
        "speed"@,
        JsonView::Number(float_number(json_number(1))->0),
    ).insert("response_format"@, JsonView::Text("pcm"@))
}

/// A connection that was just opened has the configured voice and model, English, 24000
/// Hz, normal speed and nothing else in force, and so has one that was just reset, in
/// whatever state it was.
pub proof fn law_defaults_are_in_force(
    config: ConfigView,
    c: ConnectionView,
    reset: Map<Seq<char>, JsonView>,
    fresh: Seq<char>,
)
    requires
        c.phase is Idle || c.phase is Streaming && !reset.contains_key("text"@),
        reset.contains_key("type"@) && reset["type"@] == JsonView::Text("reset"@),
    ensures
        ({
            let session = SessionView {
                voice: config.default_voice,
                model: config.default_model,
                sample_rate: json_number(24000),
                language: "en"@,
                speed: float_number(json_number(1))->0,
                extras: Map::empty(),
            };
            &&& default_params(config) == session
            &&& ConnectionView::opened(config) == ConnectionView { session, phase: PhaseView::Idle }
            &&& client_step(config, c, ClientInput::Text(Ok(JsonView::Object(reset))), fresh) == (
                ConnectionView { session, phase: c.phase },
                Seq::<ActionView>::empty(),
            )
        }),
{
    reveal_strlit("reset");
    reveal_strlit("cancel");
    assert("reset"@.len() == 5 && "cancel"@.len() == 6);
}

/// A text alone is asked for under the defaults, on a connection that was just opened and
/// on one that was just reset: exactly seven members go to the backend.
pub proof fn law_plain_request_has_the_defaults(
    config: ConfigView,
    c: ConnectionView,
    reset: Map<Seq<char>, JsonView>,
    text: Seq<char>,
    fresh: Seq<char>,
)
    requires
        c.phase is Idle,
        reset.contains_key("type"@) && reset["type"@] == JsonView::Text("reset"@),
    ensures
        ({
            let say = ClientInput::Text(
                Ok(JsonView::Object(Map::empty().insert("text"@, JsonView::Text(text)))),
            );
            let forget = ClientInput::Text(Ok(JsonView::Object(reset)));
            let first = client_step(config, ConnectionView::opened(config), say, fresh).1;
            let next = client_step(config, client_step(config, c, forget, fresh).0, say, fresh).1;
            &&& first.len() == 1 && first[0] is Request
            &&& first[0]->Request_0.body == default_body(config, text)
            &&& next.len() == 1 && next[0] is Request
            &&& next[0]->Request_0.body == default_body(config, text)
        }),
{
    lemma_names();
    law_defaults_are_in_force(config, c, reset, fresh);
    let o = Map::<Seq<char>, JsonView>::empty().insert("text"@, JsonView::Text(text));
    let say = ClientInput::Text(Ok(JsonView::Object(o)));
    let opened = ConnectionView::opened(config);
    let forget = ClientInput::Text(Ok(JsonView::Object(reset)));
    assert(client_step(config, c, forget, fresh).0 == opened);
    let body = client_step(config, opened, say, fresh).1[0]->Request_0.body;
    law_speech_is_requested(config, opened, o, fresh);
    assert forall|name: Seq<char>|
        (#[trigger] body.contains_key(name) <==> default_body(config, text).contains_key(name)) && (
        body.contains_key(name) ==> body[name] == default_body(config, text)[name]) by {
        law_request_body_is_made_of(config, opened, o, fresh, name);
    }
    assert(body =~= default_body(config, text));
}

/// On an idle connection a message whose `type` is `cancel` does nothing, whatever else it
/// holds.
pub proof fn law_idle_cancel_is_silent(
    config: ConfigView,
    c: ConnectionView,
    o: Map<Seq<char>, JsonView>,
    fresh: Seq<char>,
)
    requires
        c.phase is Idle,
        o.contains_key("type"@) && o["type"@] == JsonView::Text("cancel"@),
    ensures
        client_step(config, c, ClientInput::Text(Ok(JsonView::Object(o))), fresh) == (
            c,
            Seq::<ActionView>::empty(),
        ),
{
}

/// On an idle connection each faulty text changes nothing and is answered by one error
/// frame of its own, without an utterance's id: what is no JSON, what is no object, a
/// `type` that no message has, and a `text` that is missing or no text.
pub proof fn law_idle_faults_are_told_apart(
    config: ConfigView,
    c: ConnectionView,
    read: Result<JsonView, Seq<char>>,
    fresh: Seq<char>,
)
    requires
        c.phase is Idle,
    ensures
        ({
            let (after, actions) = client_step(config, c, ClientInput::Text(read), fresh);
            match read {
                Err(e) => after == c && sends(
                    actions,
                    FrameView::Error { utterance_id: None, message: "Invalid JSON: "@ + e },
                ),
                Ok(JsonView::Object(o)) => {
                    &&& text_in(o, "type"@) && o["type"@] != JsonView::Text("cancel"@) && o["type"@]
                        != JsonView::Text("reset"@) ==> after == c && sends(
                        actions,
                        FrameView::Error {
                            utterance_id: None,
                            message: "Unknown message type: \""@ + o["type"@]->Text_0 + "\""@,
                        },
                    )
                    &&& !text_in(o, "type"@) && !text_in(o, "text"@) ==> after == c && sends(
                        actions,
                        FrameView::Error {
                            utterance_id: None,
                            message: "Missing required field: \"text\""@,
                        },
                    )
                },
                Ok(_) => after == c && sends(
                    actions,
                    FrameView::Error { utterance_id: None, message: "Expected JSON object"@ },
                ),
            }
        }),
{
}

/// What a client's text does while an utterance streams. A cancel ends the utterance under
/// its id. Else a message with a `text`, of any kind, is told to wait. Of the others a
/// reset forgets the parameters, another `type` is passed over, and what is left is faulty
/// and answered by one error frame of its own. No error bears an utterance's id.
pub proof fn law_streaming_texts_are_answered(
    config: ConfigView,
    c: ConnectionView,
    read: Result<JsonView, Seq<char>>,
    fresh: Seq<char>,
)
    requires
        c.phase is Streaming,
    ensures
        ({
            let id = c.phase->Streaming_utterance_id;
            let (after, actions) = client_step(config, c, ClientInput::Text(read), fresh);
            match read {
                Err(e) => after == c && sends(
                    actions,
                    FrameView::Error { utterance_id: None, message: "Invalid JSON: "@ + e },
                ),
                Ok(JsonView::Object(o)) => if o.contains_key("type"@) && o["type"@]
                    == JsonView::Text("cancel"@) {
                    after == (ConnectionView { session: c.session, phase: PhaseView::Idle })
                        && sends(actions, FrameView::Cancelled { utterance_id: id })
                } else if o.contains_key("text"@) {
                    after == c && sends(
                        actions,
                        FrameView::Error {
                            utterance_id: None,
                            message: "Utterance "@ + id
                                + " is still in progress. Send {\"type\":\"cancel\"} first."@,
                        },
                    )
                } else if o.contains_key("type"@) && o["type"@] == JsonView::Text("reset"@) {
                    after.phase == c.phase && after.session
                        == ConnectionView::opened(config).session && actions.len() == 0
                } else if text_in(o, "type"@) {
                    after == c && actions.len() == 0
                } else {
                    after == c && sends(
                        actions,
                        FrameView::Error {
                            utterance_id: None,
                            message: "Missing required field: \"text\""@,
                        },
                    )
                },
                Ok(_) => after == c && sends(
                    actions,
                    FrameView::Error { utterance_id: None, message: "Expected JSON object"@ },
                ),
            }
        }),
{
    reveal_strlit("reset");
    reveal_strlit("cancel");
    assert("reset"@.len() == 5 && "cancel"@.len() == 6);
}

/// What a client's side brings besides texts. A binary frame closes the connection as
/// unsupported data; a client that leaves closes it without a word; a ping is answered
/// with its own bytes; a pong is nothing; a frame that cannot be read ends an idle
/// connection and is passed over while an utterance streams.
pub proof fn law_other_client_events(
    config: ConfigView,
    c: ConnectionView,
    data: Seq<u8>,
    fresh: Seq<char>,
)
    requires
        c.phase is Idle || c.phase is Streaming,
    ensures
        c.reads_client(),
        ({
            let closed = ConnectionView { session: c.session, phase: PhaseView::Closed };
            let none = Seq::<ActionView>::empty();
            let (after, actions) = client_step(config, c, ClientInput::Binary, fresh);
            let (still, answer) = client_step(config, c, ClientInput::Ping(data), fresh);
            &&& after == closed && sends(
                actions,
                FrameView::Close { code: 1003, reason: "Binary frames not supported"@ },
            )
            &&& client_step(config, c, ClientInput::Closed, fresh) == (closed, none)
            &&& still == c && sends(answer, FrameView::Pong(data))
            &&& client_step(config, c, ClientInput::Pong, fresh) == (c, none)
            &&& c.phase is Idle ==> client_step(config, c, ClientInput::Failed, fresh) == (
                closed,
                none,
            )
            &&& c.phase is Streaming ==> client_step(config, c, ClientInput::Failed, fresh) == (
                c,
                none,
            )
        }),
{
}

/// Client events are taken while no request is out and the connection is open, and at no
/// other time.
pub proof fn law_client_is_read_unless_asking(c: ConnectionView)
    ensures
        c.phase is Requesting || c.phase is Closed ==> !c.reads_client(),
        c.phase is Idle || c.phase is Streaming ==> c.reads_client(),
{
}

/// A change of phase leaves the parameters alone, and a reset leaves the phase alone.
pub proof fn law_phase_and_params_are_apart(
    config: ConfigView,
    c: ConnectionView,
    phase: PhaseView,
)
    ensures
        c.in_phase(phase).session == c.session,
        c.in_phase(phase).phase == phase,
        c.reset(config).phase == c.phase,
        c.reset(config).session == ConnectionView::opened(config).session,
{
}

/// The text that a backend's error response is passed on as: its own where that has at
/// most 512 bytes, else the longest prefix that has, with three dots; a fixed one where it
/// could not be read.
pub proof fn law_error_text_is_cut_at_512(text: Seq<char>)
    ensures
        clipped_error(None) == "unable to read response body"@,
        encode_utf8(text).len() <= 512 ==> clipped_error(Some(text)) == text,
        encode_utf8(text).len() > 512 ==> exists|k: int|
            0 <= k < text.len() && encode_utf8(#[trigger] text.take(k)).len() <= 512 && encode_utf8(
                text.take(k + 1),
            ).len() > 512 && clipped_error(Some(text)) == text.take(k) + "..."@,
{
    reveal_strlit("unable to read response body");
    assert("unable to read response body"@.len() == 28);
    lemma_short_text("unable to read response body"@);
    law_prefix_is_longest(text, 512);
    if encode_utf8(text).len() > 512 {
        let k = prefix_within(text, 512).len() as int;
        assert(text.take(text.len() as int) =~= text);
        assert(clipped_error(Some(text)) == text.take(k) + "..."@);
    }
}

proof fn lemma_short_text(s: Seq<char>)
    ensures
        encode_utf8(s).len() <= 4 * s.len(),
    decreases s.len(),
{
    if s.len() > 0 {
        lemma_short_text(s.drop_first());
    }
}

/// A text is cut down to the longest prefix that fits.
pub proof fn law_prefix_is_longest(s: Seq<char>, limit: nat)
    ensures
        ({
            let r = prefix_within(s, limit);
            &&& r.len() <= s.len() && r == s.take(r.len() as int)
            &&& encode_utf8(r).len() <= limit
            &&& r.len() < s.len() ==> encode_utf8(s.take(r.len() as int + 1)).len() > limit
        }),
        encode_utf8(s).len() <= limit ==> prefix_within(s, limit) == s,
    decreases s.len(),
{
    if s.len() == 0 || encode_utf8(s).len() <= limit {
        assert(s.take(s.len() as int) =~= s);
    } else {
        law_prefix_is_longest(s.drop_last(), limit);
        let k = prefix_within(s, limit).len() as int;
        assert(s.drop_last().take(k) =~= s.take(k));
        if k + 1 < s.len() {
            assert(s.drop_last().take(k + 1) =~= s.take(k + 1));
        } else {
            assert(s.take(k + 1) =~= s);
        }
    }
}

/// A status from 200 to 299 starts the utterance: one start frame under its id, with the
/// sample rate in force, and from then on it streams with nothing held back. Any other
/// status, and a request that brings no response, ends it: one error frame under its id,
/// with the status in decimal and the backend's text, or with why nothing came. The
/// parameters stay.
pub proof fn law_replies_start_or_end(c: ConnectionView, id: Seq<char>, reply: ReplyView)
    ensures
        ({
            let (after, actions) = reply_step(c, id, reply);
            &&& after.session == c.session
            &&& match reply {
                ReplyView::Failed(e) => after.phase is Idle && sends(
                    actions,
                    FrameView::Error {
                        utterance_id: Some(id),
                        message: "Backend request failed: "@ + e,
                    },
                ),
                ReplyView::Answered { status, error_body } => {
                    &&& 200 <= status < 300 ==> after.phase == PhaseView::Streaming {
                        utterance_id: id,
                        pending: Seq::empty(),
                    } && sends(
                        actions,
                        FrameView::Start { utterance_id: id, sample_rate: c.session.sample_rate },
                    )
                    &&& status < 200 || status >= 300 ==> after.phase is Idle && sends(
                        actions,
                        FrameView::Error {
                            utterance_id: Some(id),
                            message: "Backend returned "@ + decimal_text(status) + ": "@
                                + clipped_error(error_body),
                        },
                    )
                },
            }
        }),
{
}

/// The slice of `n` bytes that begins at byte `i * n`.
pub open spec fn slice_at(bytes: Seq<u8>, n: nat, i: int) -> Seq<u8> {
    bytes.subrange(i * n, i * n + n)
}

/// Frames are consecutive slices of the bytes: the one at place `i` begins at byte `i * n`
/// and has `n` bytes; there are as many as fit, and what comes after them is left.
#[verifier::spinoff_prover]
pub proof fn law_frames_are_slices(bytes: Seq<u8>, n: nat)
    requires
        n > 0,
    ensures
        whole_frames(bytes, n).len() == bytes.len() / n,
        forall|i: int|
            0 <= i < bytes.len() / n ==> (#[trigger] whole_frames(bytes, n)[i]) == slice_at(
                bytes,
                n,
                i,
            ),
        forall|i: int|
            0 <= i < bytes.len() / n ==> (#[trigger] slice_at(bytes, n, i)).len() == n,
        0 <= (bytes.len() / n) * n <= bytes.len(),
        remainder(bytes, n) == bytes.subrange(
            ((bytes.len() / n) * n) as int,
            bytes.len() as int,
        ),
    decreases bytes.len(),
{
    let len = bytes.len() as int;
    let m = n as int;
    let q = len / m;
    assert(bytes.len() / n == q);
    lemma_fundamental_div_mod(len, m);
    assert(m * q == q * m) by (nonlinear_arith);
    if bytes.len() < n {
        lemma_basic_div(len, m);
        assert(q * m == 0) by (nonlinear_arith)
            requires
                q == 0,
        ;
        assert(bytes.subrange(0, len) =~= bytes);
    } else {
        let tail = bytes.skip(m);
        law_frames_are_slices(tail, n);
        lemma_div_minus_one(len, m);
        assert(tail.len() / n == q - 1);
        assert((q - 1) * m == q * m - m) by (nonlinear_arith);
        assert forall|i: int| 0 <= i < bytes.len() / n implies (#[trigger] slice_at(bytes, n, i)).len()
            == n by {
            assert(0 <= i * m && i * m + m <= q * m) by (nonlinear_arith)
                requires
                    0 <= i < q,
                    m > 0,
            ;
        }
        assert forall|i: int| 0 <= i < bytes.len() / n implies (#[trigger] whole_frames(
            bytes,
            n,
        )[i]) == slice_at(bytes, n, i) by {
            assert(0 <= i * m && i * m + m <= q * m) by (nonlinear_arith)
                requires
                    0 <= i < q,
                    m > 0,
            ;
            if i == 0 {
                assert(whole_frames(bytes, n)[0] =~= slice_at(bytes, n, 0));
            } else {
                let j = i - 1;
                assert(whole_frames(bytes, n)[i] == whole_frames(tail, n)[j]);
                assert(j * m == i * m - m) by (nonlinear_arith)
                    requires
                        j == i - 1,
                ;
                assert(slice_at(tail, n, j) =~= slice_at(bytes, n, i));
            }
        }
        assert(tail.subrange((q - 1) * m, tail.len() as int) =~= bytes.subrange(q * m, len));
    }
}

/// What a piece of the backend's stream does. Where it and what is held are more bytes than
/// allowed, the client is told so under the utterance's id and the connection is closed.
/// Else every full frame of them is sent, in order and as audio, and the rest is held. The
/// parameters stay.
pub proof fn law_pieces_are_framed_or_refused(
    config: ConfigView,
    c: ConnectionView,
    id: Seq<char>,
    pending: Seq<u8>,
    bytes: Seq<u8>,
)
    requires
        config.chunk_size > 0,
    ensures
        ({
            let all = pending + bytes;
            let n = config.chunk_size;
            let (after, actions) = audio_step(config, c, id, pending, AudioInput::Bytes(bytes));
            &&& after.session == c.session
            &&& all.len() > config.max_buffer_size ==> {
                &&& after.phase is Closed
                &&& actions.len() == 2
                &&& actions[0] == ActionView::Send(
                    FrameView::Error {
                        utterance_id: Some(id),
                        message: "Buffer size exceeded maximum of "@ + decimal_text(
                            config.max_buffer_size,
                        ) + " bytes"@,
                    },
                )
                &&& actions[1] == ActionView::Send(
                    FrameView::Close { code: 1011, reason: "Buffer limit exceeded"@ },
                )
            }
            &&& all.len() <= config.max_buffer_size ==> {
                &&& after.phase == PhaseView::Streaming {
                    utterance_id: id,
                    pending: all.subrange(((all.len() / n) * n) as int, all.len() as int),
                }
                &&& actions.len() == all.len() / n
                &&& forall|i: int|
                    0 <= i < actions.len() ==> #[trigger] actions[i] == ActionView::Send(
                        FrameView::Audio(slice_at(all, n, i)),
                    )
            }
        }),
{
    law_frames_are_slices(pending + bytes, config.chunk_size);
    let frames = whole_frames(pending + bytes, config.chunk_size);
    assert(forall|i: int|
        0 <= i < frames.len() ==> #[trigger] frames[i] == slice_at(
            pending + bytes,
            config.chunk_size,
            i,
        ));
}

/// A backend's stream that breaks ends the utterance with one error frame under its id,
/// whatever is held; the parameters stay and the connection is ready for the next request.
pub proof fn law_broken_stream_is_an_error(
    config: ConfigView,
    c: ConnectionView,
    id: Seq<char>,
    pending: Seq<u8>,
    e: Seq<char>,
)
    ensures
        ({
            let (after, actions) = audio_step(config, c, id, pending, AudioInput::Failed(e));
            &&& after == ConnectionView { session: c.session, phase: PhaseView::Idle }
            &&& sends(
                actions,
                FrameView::Error {
                    utterance_id: Some(id),
                    message: "Backend stream error: "@ + e,
                },
            )
        }),
{
}

/// A backend's stream that ends completes the utterance: what is held is sent, with one zero
/// added where it is odd, then that the utterance is done, under its id; where nothing is
/// held, the latter alone. The parameters stay and the connection is ready for the next
/// request.
pub proof fn law_ended_stream_is_done(
    config: ConfigView,
    c: ConnectionView,
    id: Seq<char>,
    pending: Seq<u8>,
)
    ensures
        ({
            let (after, actions) = audio_step(config, c, id, pending, AudioInput::End);
            let done = ActionView::Send(FrameView::Done { utterance_id: id });
            &&& after == ConnectionView { session: c.session, phase: PhaseView::Idle }
            &&& pending.len() == 0 ==> actions.len() == 1 && actions[0] == done
            &&& pending.len() > 0 ==> {
                &&& actions.len() == 2
                &&& actions[0] == ActionView::Send(
                    FrameView::Audio(
                        if pending.len() % 2 == 0 {
                            pending
                        } else {
                            pending.push(0u8)
                        },
                    ),
                )
                &&& actions[1] == done
            }
        }),
{
}

/// What is left at the end of a stream makes one frame of an even number of bytes, if it is
/// anything at all.
pub proof fn law_last_frame_is_even(rest: Seq<u8>)
    ensures
        rest.len() == 0 ==> last_frame(rest) is None,
        rest.len() > 0 && rest.len() % 2 == 0 ==> last_frame(rest) == Some(rest),
        rest.len() % 2 == 1 ==> last_frame(rest) == Some(rest.push(0u8)),
        rest.len() % 2 == 0 ==> padded(rest) == rest,
        rest.len() % 2 == 1 ==> padded(rest) == rest.push(0u8),
{
}

/// Which message a text is, said of its members alone. A `type` that is a text decides;
/// without one, a `text` that is a text asks for speech, with the parameters that have the
/// right form and with every other member that does not steer the bridge.
pub proof fn law_messages_are_told_apart(read: Result<JsonView, Seq<char>>)
    ensures
        match read {
            Err(e) => message_of(read) == Err::<MessageView, MessageErrorView>(
                MessageErrorView::InvalidJson(e),
            ),
            Ok(JsonView::Object(o)) => if text_in(o, "type"@) {
                message_of(read) == if o["type"@] == JsonView::Text("cancel"@) {
                    Ok::<MessageView, MessageErrorView>(MessageView::Cancel)
                } else if o["type"@] == JsonView::Text("reset"@) {
                    Ok(MessageView::Reset)
                } else {
                    Err(MessageErrorView::UnknownType(o["type"@]->Text_0))
                }
            } else if text_in(o, "text"@) {
                message_of(read) matches Ok(MessageView::Synthesize(m)) && {
                    &&& JsonView::Text(m.text) == o["text"@]
                    &&& m.utterance_id == if text_in(o, "utterance_id"@) {
                        Some(o["utterance_id"@]->Text_0)
                    } else {
                        None
                    }
                    &&& m.voice == if text_in(o, "voice"@) {
                        Some(o["voice"@]->Text_0)
                    } else {
                        None
                    }
                    &&& m.model == if text_in(o, "model"@) {
                        Some(o["model"@]->Text_0)
                    } else {
                        None
                    }
                    &&& m.language == if text_in(o, "language"@) {
                        Some(o["language"@]->Text_0)
                    } else {
                        None
                    }
                    &&& m.sample_rate == if number_in(o, "sample_rate"@) {
                        Some(o["sample_rate"@]->Number_0)
                    } else {
                        None
                    }
                    &&& m.speed == if number_in(o, "speed"@) {
                        Some(o["speed"@]->Number_0)
                    } else {
                        None
                    }
                    &&& forall|name: Seq<char>|
                        (#[trigger] m.extra_fields.contains_key(name) <==> o.contains_key(name)
                            && name != "text"@ && name != "type"@ && name != "utterance_id"@ && name
                            != "voice"@ && name != "model"@ && name != "sample_rate"@ && name
                            != "language"@ && name != "speed"@) && (m.extra_fields.contains_key(name)
                            ==> m.extra_fields[name] == o[name])
                }
            } else {
                message_of(read) == Err::<MessageView, MessageErrorView>(
                    MessageErrorView::MissingText,
                )
            },
            Ok(_) => message_of(read) == Err::<MessageView, MessageErrorView>(
                MessageErrorView::NotAnObject,
            ),
        },
{
}

/// Each fault has its own words.
pub proof fn law_faults_have_words(text: Seq<char>)
    ensures
        MessageErrorView::InvalidJson(text).message() == "Invalid JSON: "@ + text,
        MessageErrorView::NotAnObject.message() == "Expected JSON object"@,
        MessageErrorView::UnknownType(text).message() == "Unknown message type: \""@ + text + "\""@,
        MessageErrorView::MissingText.message() == "Missing required field: \"text\""@,
{
}

/// A request puts into force each thing that it gives, and leaves the rest.
pub proof fn law_given_params_replace(s: SessionView, request: SynthesisView, name: Seq<char>)
    ensures
        ({
            let t = updated_params(s, request);
            &&& request.voice matches Some(v) ==> t.voice == v
            &&& request.voice is None ==> t.voice == s.voice
            &&& request.model matches Some(v) ==> t.model == v
            &&& request.model is None ==> t.model == s.model
            &&& request.language matches Some(v) ==> t.language == v
            &&& request.language is None ==> t.language == s.language
            &&& request.sample_rate matches Some(v) ==> t.sample_rate == v
            &&& request.sample_rate is None ==> t.sample_rate == s.sample_rate
            &&& request.speed matches Some(v) ==> t.speed == v
            &&& request.speed is None ==> t.speed == s.speed
            &&& t.extras.contains_key(name) <==> request.extra_fields.contains_key(name)
                || s.extras.contains_key(name)
            &&& request.extra_fields.contains_key(name) ==> t.extras[name]
                == request.extra_fields[name]
            &&& s.extras.contains_key(name) && !request.extra_fields.contains_key(name)
                ==> t.extras[name] == s.extras[name]
        }),
{
}

/// The backend request for a text, from the parameters in force: where it goes, under which
/// token, and each member of its body.
pub proof fn law_request_holds_the_params(
    config: ConfigView,
    s: SessionView,
    text: Seq<char>,
    name: Seq<char>,
)
    ensures
        ({
            let request = request_for(config, s, text);
            let body = request.body;
            &&& request.url == config.backend_url + "/v1/audio/speech"@
            &&& request.bearer == config.backend_api_key
            &&& body == request_fields(s, text)
            &&& body.contains_key("input"@) && body["input"@] == JsonView::Text(text)
            &&& body.contains_key("response_format"@) && body["response_format"@]
                == JsonView::Text("pcm"@)
            &&& body.contains_key("voice"@) && body["voice"@] == JsonView::Text(s.voice)
            &&& body.contains_key("model"@) && body["model"@] == JsonView::Text(s.model)
            &&& body.contains_key("language"@) && body["language"@] == JsonView::Text(s.language)
            &&& body.contains_key("sample_rate"@) && body["sample_rate"@] == JsonView::Number(
                s.sample_rate,
            )
            &&& body.contains_key("speed"@) && body["speed"@] == JsonView::Number(s.speed)
            &&& name != "input"@ && name != "response_format"@ && name != "voice"@ && name
                != "model"@ && name != "language"@ && name != "sample_rate"@ && name != "speed"@
                ==> (body.contains_key(name) <==> s.extras.contains_key(name)) && (
            s.extras.contains_key(name) ==> body[name] == s.extras[name])
        }),
{
    lemma_names();
}

/// An utterance begins under the id that it is given: the request's parameters come into
/// force, and one backend request goes out for its text under them.
pub proof fn law_utterance_begins(
    config: ConfigView,
    c: ConnectionView,
    request: SynthesisView,
    id: Seq<char>,
)
    ensures
        ({
            let (after, actions) = begin_step(config, c, request, id);
            &&& after.phase == PhaseView::Requesting { utterance_id: id }
            &&& after.session == updated_params(c.session, request)
            &&& actions.len() == 1
            &&& actions[0] == ActionView::Request(request_for(config, after.session, request.text))
        }),
{
}

/// What a message does while no utterance streams, by its kind: a request begins an
/// utterance under the client's id, or under one made from the fresh UUID; a cancel does
/// nothing; a reset puts back the parameters of a fresh connection; a fault is answered in
/// its own words.
pub proof fn law_idle_messages_are_obeyed(
    config: ConfigView,
    c: ConnectionView,
    message: Result<MessageView, MessageErrorView>,
    fresh: Seq<char>,
)
    ensures
        ({
            let (after, actions) = idle_message_step(config, c, message, fresh);
            match message {
                Ok(MessageView::Synthesize(request)) => (after, actions) == begin_step(
                    config,
                    c,
                    request,
                    match request.utterance_id {
                        Some(id) => id,
                        None => "u_"@ + fresh,
                    },
                ),
                Ok(MessageView::Cancel) => after == c && actions.len() == 0,
                Ok(MessageView::Reset) => after.phase == c.phase && after.session
                    == ConnectionView::opened(config).session && actions.len() == 0,
                Err(e) => after == c && sends(
                    actions,
                    FrameView::Error { utterance_id: None, message: e.message() },
                ),
            }
        }),
{
}

/// A text while an utterance streams is handled under the id of that utterance.
pub proof fn law_streaming_texts_know_their_utterance(
    config: ConfigView,
    c: ConnectionView,
    read: Result<JsonView, Seq<char>>,
    fresh: Seq<char>,
)
    requires
        c.phase is Streaming,
    ensures
        streaming_message_step(config, c, c.phase->Streaming_utterance_id, read) == client_step(
            config,
            c,
            ClientInput::Text(read),
            fresh,
        ),
{
}

/// A number below ten is written as its digit; writing another digit behind a number makes
/// it ten times as large and adds the digit.
pub proof fn law_decimal_digits(n: nat, d: nat)
    requires
        d < 10,
    ensures
        decimal_text(d) == seq![(48 + d) as char],
        n > 0 ==> decimal_text(10 * n + d) == decimal_text(n).push((48 + d) as char),
{
    assert((10 * n + d) / 10 == n && (10 * n + d) % 10 == d);
}

/// Another digit behind a row of digits makes what it stands for ten times as large and
/// adds the digit; no digits stand for zero.
pub proof fn law_digits_have_places(s: Seq<char>, c: char)
    requires
        '0' <= c <= '9',
    ensures
        digits_value(Seq::empty()) == 0,
        digits_value(s.push(c)) == 10 * digits_value(s) + (c as nat - 48) as nat,
{
    assert(s.push(c).drop_last() =~= s);
}

/// Whether a text is made of the digits `0` to `9` alone.
pub open spec fn only_digits(s: Seq<char>) -> bool {
    forall|i: int| 0 <= i < s.len() ==> '0' <= #[trigger] s[i] && s[i] <= '9'
}

/// Which texts are read as a number: one digit or more from `0` to `9`, alone or behind one
/// plus sign, that stand for no more than the limit; they are read as what they stand for.
pub proof fn law_decimals_are_read(s: Seq<char>, max: nat)
    ensures
        ({
            let digits = if s.len() > 0 && s[0] == '+' {
                s.subrange(1, s.len() as int)
            } else {
                s
            };
            &&& digits.len() > 0 && only_digits(digits) && digits_value(digits) <= max
                ==> decimal_value(s, max) == Some(digits_value(digits))
            &&& digits.len() == 0 || !only_digits(digits) || digits_value(digits) > max
                ==> decimal_value(s, max) is None
        }),
{
    let digits = if s.len() > 0 && s[0] == '+' {
        s.subrange(1, s.len() as int)
    } else {
        s
    };
    if s.len() > 0 {
        assert(s.subrange(1, s.len() as int) =~= s.skip(1));
    }
    if all_digits(digits) {
        assert forall|i: int| 0 <= i < digits.len() implies '0' <= #[trigger] digits[i] && digits[i]
            <= '9' by {
            assert(is_digit(digits[i]));
        }
    }
    if only_digits(digits) {
        assert(all_digits(digits));
    }
}

/// A number that is written in decimal and read again is the same number, where the limit
/// allows it, and is not read at all where it does not.
pub proof fn law_decimals_read_back(n: nat, max: nat)
    ensures
        n <= max ==> decimal_value(decimal_text(n), max) == Some(n),
        n > max ==> decimal_value(decimal_text(n), max) is None,
{
    lemma_decimal_text(n);
    law_decimals_are_read(decimal_text(n), max);
}

proof fn lemma_decimal_text(n: nat)
    ensures
        decimal_text(n).len() > 0,
        only_digits(decimal_text(n)),
        digits_value(decimal_text(n)) == n,
    decreases n,
{
    if n < 10 {
        assert(decimal_text(n) =~= Seq::<char>::empty().push((48 + n) as char));
        law_digits_have_places(Seq::empty(), (48 + n) as char);
    } else {
        lemma_decimal_text(n / 10);
        law_digits_have_places(decimal_text(n / 10), (48 + n % 10) as char);
    }
}

} // verus!
