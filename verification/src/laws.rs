//! What holds of a connection as a whole, whatever its clients and its backend do.
use crate::audio::{
    last_frame, law_audio_is_complete, law_frames_are_aligned, law_frames_have_fixed_size,
    law_pieces_do_not_matter, padded, remainder, streamed, whole_frames,
};
use crate::config::{configured, valid_chunk_size, ConfigView, EnvironmentView};
use crate::frame::FrameView;
use crate::json::{flat, json_number, JsonView};
use crate::message::{
    extra_members, is_control_field, is_sticky_field, message_of, synthesis_of, text_member,
    MessageErrorView, MessageView, SynthesisView,
};
use crate::proxy::{
    audio_sends, audio_step, client_step, clipped_error, error_send, has_text, in_progress_message,
    is_cancel, reply_step, success_status, ActionView, AudioInput, ClientInput, ConnectionView,
    PhaseView, ReplyView, MAX_ERROR_TEXT,
};
use crate::session::{default_params, request_fields, request_for, updated_params, SessionView};
use crate::text::prefix_within;
use vstd::prelude::*;
use vstd::utf8::encode_utf8;

verus! {

/// Members of a backend request that the bridge sets itself.
pub open spec fn is_bridge_field(name: Seq<char>) -> bool {
    name == "model"@ || name == "voice"@ || name == "input"@ || name == "response_format"@ || name
        == "speed"@ || name == "sample_rate"@ || name == "language"@
}

proof fn lemma_bridge_names_differ()
    ensures
        "model"@ != "voice"@,
        "model"@ != "input"@,
        "model"@ != "response_format"@,
        "model"@ != "speed"@,
        "model"@ != "sample_rate"@,
        "model"@ != "language"@,
        "voice"@ != "input"@,
        "voice"@ != "response_format"@,
        "voice"@ != "speed"@,
        "voice"@ != "sample_rate"@,
        "voice"@ != "language"@,
        "input"@ != "response_format"@,
        "input"@ != "speed"@,
        "input"@ != "sample_rate"@,
        "input"@ != "language"@,
        "response_format"@ != "speed"@,
        "response_format"@ != "sample_rate"@,
        "response_format"@ != "language"@,
        "speed"@ != "sample_rate"@,
        "speed"@ != "language"@,
        "sample_rate"@ != "language"@,
{
    reveal_strlit("model");
    reveal_strlit("voice");
    reveal_strlit("input");
    reveal_strlit("response_format");
    reveal_strlit("speed");
    reveal_strlit("sample_rate");
    reveal_strlit("language");
    assert("response_format"@.len() == 15);
    assert("sample_rate"@.len() == 11);
    assert("language"@.len() == 8);
    assert("model"@[0] != "voice"@[0]);
    assert("model"@[0] != "input"@[0]);
    assert("model"@[0] != "speed"@[0]);
    assert("voice"@[0] != "input"@[0]);
    assert("voice"@[0] != "speed"@[0]);
    assert("input"@[0] != "speed"@[0]);
}

/// Members of the bridge's own cannot be overridden: whatever extra members a client
/// sent, the request asks for PCM of the text that was to be spoken, under the parameters
/// in force.
pub proof fn law_bridge_fields_win(s: SessionView, text: Seq<char>)
    ensures
        request_fields(s, text)["input"@] == JsonView::Text(text),
        request_fields(s, text)["response_format"@] == JsonView::Text("pcm"@),
        request_fields(s, text)["model"@] == JsonView::Text(s.model),
        request_fields(s, text)["voice"@] == JsonView::Text(s.voice),
        request_fields(s, text)["language"@] == JsonView::Text(s.language),
        request_fields(s, text)["speed"@] == JsonView::Number(s.speed),
        request_fields(s, text)["sample_rate"@] == JsonView::Number(s.sample_rate),
        forall|name: Seq<char>|
            is_bridge_field(name) ==> #[trigger] request_fields(s, text).contains_key(name),
{
    lemma_bridge_names_differ();
}

/// Everything else that is in force as an extra member goes to the backend unchanged, and
/// nothing beyond that does.
pub proof fn law_extras_are_forwarded(s: SessionView, text: Seq<char>, name: Seq<char>)
    requires
        !is_bridge_field(name),
    ensures
        request_fields(s, text).contains_key(name) <==> s.extras.contains_key(name),
        s.extras.contains_key(name) ==> request_fields(s, text)[name] == s.extras[name],
{
}

/// Whether a member has the kind of value that its name asks for. Members that mean
/// nothing to the bridge may have any.
pub open spec fn well_typed(name: Seq<char>, value: JsonView) -> bool {
    if name == "voice"@ || name == "model"@ || name == "language"@ {
        value is Text
    } else if name == "sample_rate"@ || name == "speed"@ {
        value is Number
    } else {
        true
    }
}

/// A request to speak asks the backend at once: at the configured place, under the
/// configured token, for PCM of the text that the client sent, with no word of the
/// client's put in its place.
pub proof fn law_text_is_spoken(
    config: ConfigView,
    c: ConnectionView,
    o: Map<Seq<char>, JsonView>,
    fresh: Seq<char>,
)
    requires
        c.phase is Idle,
        message_of(Ok(JsonView::Object(o))) matches Ok(MessageView::Synthesize(_)),
    ensures
        ({
            let actions = client_step(
                config,
                c,
                ClientInput::Text(Ok(JsonView::Object(o))),
                fresh,
            ).1;
            &&& actions.len() == 1
            &&& actions[0] matches ActionView::Request(request) && {
                &&& request.url == config.backend_url + "/v1/audio/speech"@
                &&& request.bearer == config.backend_api_key
                &&& request.body["input"@] == o["text"@]
                &&& request.body["response_format"@] == JsonView::Text("pcm"@)
            }
        }),
{
    let text = text_member(o, "text"@)->0;
    law_bridge_fields_win(updated_params(c.session, synthesis_of(o, text)), text);
}

/// A member of a client's request reaches the backend as it was sent, whatever was in
/// force before: all but those that steer the bridge and the two that the bridge fixes.
pub proof fn law_members_reach_the_backend(
    config: ConfigView,
    c: ConnectionView,
    o: Map<Seq<char>, JsonView>,
    fresh: Seq<char>,
    name: Seq<char>,
)
    requires
        c.phase is Idle,
        message_of(Ok(JsonView::Object(o))) matches Ok(MessageView::Synthesize(_)),
        o.contains_key(name),
        well_typed(name, o[name]),
        !is_control_field(name),
        name != "input"@,
        name != "response_format"@,
    ensures
        ({
            let actions = client_step(
                config,
                c,
                ClientInput::Text(Ok(JsonView::Object(o))),
                fresh,
            ).1;
            &&& actions.len() == 1
            &&& actions[0] matches ActionView::Request(request) && request.body.contains_key(name)
                && request.body[name] == o[name]
        }),
{
    let text = text_member(o, "text"@)->0;
    let after = updated_params(c.session, synthesis_of(o, text));
    law_bridge_fields_win(after, text);
    if is_bridge_field(name) {
        assert(request_fields(after, text).contains_key(name));
    } else {
        assert(extra_members(o).contains_key(name));
        law_extras_are_forwarded(after, text, name);
    }
}

proof fn lemma_control_is_not_bridge(name: Seq<char>)
    requires
        is_control_field(name),
    ensures
        !is_bridge_field(name),
{
    reveal_strlit("text");
    reveal_strlit("type");
    reveal_strlit("utterance_id");
    reveal_strlit("model");
    reveal_strlit("voice");
    reveal_strlit("input");
    reveal_strlit("response_format");
    reveal_strlit("speed");
    reveal_strlit("sample_rate");
    reveal_strlit("language");
    assert("text"@.len() == 4 && "type"@.len() == 4 && "utterance_id"@.len() == 12);
    assert("model"@.len() == 5 && "voice"@.len() == 5 && "input"@.len() == 5 && "speed"@.len() == 5);
    assert("response_format"@.len() == 15 && "sample_rate"@.len() == 11 && "language"@.len() == 8);
}

/// Whether the extra members in force are extra indeed: none bears a name that means
/// something to the bridge.
pub open spec fn extras_are_extra(s: SessionView) -> bool {
    forall|name: Seq<char>| #[trigger]
        s.extras.contains_key(name) ==> !is_control_field(name) && !is_sticky_field(name)
}

/// Whether no request among some actions holds a member that steers the bridge.
pub open spec fn control_stays_here(actions: Seq<ActionView>) -> bool {
    forall|i: int, name: Seq<char>|
        0 <= i < actions.len() && actions[i] is Request && is_control_field(name)
            ==> !(#[trigger] actions[i]->Request_0.body.contains_key(name))
}

/// The parameters in force after a row of requests.
pub open spec fn params_after(s: SessionView, requests: Seq<SynthesisView>) -> SessionView
    decreases requests.len(),
{
    if requests.len() == 0 {
        s
    } else {
        updated_params(params_after(s, requests.drop_last()), requests.last())
    }
}

/// What a request gives stays in force until a later one gives it anew.
pub proof fn law_params_are_sticky(s: SessionView, requests: Seq<SynthesisView>, i: int)
    requires
        0 <= i < requests.len(),
    ensures
        requests[i].voice is Some && (forall|j: int|
            i < j < requests.len() ==> (#[trigger] requests[j]).voice is None) ==> params_after(
            s,
            requests,
        ).voice == requests[i].voice->0,
        requests[i].model is Some && (forall|j: int|
            i < j < requests.len() ==> (#[trigger] requests[j]).model is None) ==> params_after(
            s,
            requests,
        ).model == requests[i].model->0,
        requests[i].sample_rate is Some && (forall|j: int|
            i < j < requests.len() ==> (#[trigger] requests[j]).sample_rate is None)
            ==> params_after(s, requests).sample_rate == requests[i].sample_rate->0,
        requests[i].language is Some && (forall|j: int|
            i < j < requests.len() ==> (#[trigger] requests[j]).language is None) ==> params_after(
            s,
            requests,
        ).language == requests[i].language->0,
        requests[i].speed is Some && (forall|j: int|
            i < j < requests.len() ==> (#[trigger] requests[j]).speed is None) ==> params_after(
            s,
            requests,
        ).speed == requests[i].speed->0,
    decreases requests.len(),
{
    let before = requests.drop_last();
    if i < before.len() {
        law_params_are_sticky(s, before, i);
        assert(before[i] == requests[i]);
        assert(forall|j: int| i < j < before.len() ==> #[trigger] before[j] == requests[j]);
        assert(requests[requests.len() - 1] == requests.last());
    }
}

/// What no request gives stays as it was at first; an extra member that was not in force
/// and that no request gives is absent.
pub proof fn law_omitted_params_stay(s: SessionView, requests: Seq<SynthesisView>)
    ensures
        (forall|j: int| 0 <= j < requests.len() ==> (#[trigger] requests[j]).voice is None)
            ==> params_after(s, requests).voice == s.voice,
        (forall|j: int| 0 <= j < requests.len() ==> (#[trigger] requests[j]).model is None)
            ==> params_after(s, requests).model == s.model,
        (forall|j: int| 0 <= j < requests.len() ==> (#[trigger] requests[j]).sample_rate is None)
            ==> params_after(s, requests).sample_rate == s.sample_rate,
        (forall|j: int| 0 <= j < requests.len() ==> (#[trigger] requests[j]).language is None)
            ==> params_after(s, requests).language == s.language,
        (forall|j: int| 0 <= j < requests.len() ==> (#[trigger] requests[j]).speed is None)
            ==> params_after(s, requests).speed == s.speed,
        forall|name: Seq<char>|
            (forall|j: int|
                0 <= j < requests.len() ==> !(
                #[trigger] requests[j]).extra_fields.contains_key(name)) ==> (
            #[trigger] params_after(s, requests).extras.contains_key(name) <==> s.extras.contains_key(
                name,
            )) && (s.extras.contains_key(name) ==> params_after(s, requests).extras[name]
                == s.extras[name]),
    decreases requests.len(),
{
    if requests.len() > 0 {
        let before = requests.drop_last();
        law_omitted_params_stay(s, before);
        assert(forall|j: int| 0 <= j < before.len() ==> #[trigger] before[j] == requests[j]);
        assert(requests[requests.len() - 1] == requests.last());
        assert forall|name: Seq<char>|
            (forall|j: int|
                0 <= j < requests.len() ==> !(
                #[trigger] requests[j]).extra_fields.contains_key(name)) implies (
        #[trigger] params_after(s, requests).extras.contains_key(name) <==> s.extras.contains_key(
            name,
        )) && (s.extras.contains_key(name) ==> params_after(s, requests).extras[name]
            == s.extras[name]) by {
            assert(params_after(s, before).extras.contains_key(name) <==> s.extras.contains_key(
                name,
            ));
        }
    }
}

/// An extra member stays in force until a later request gives one of its name.
pub proof fn law_extras_are_sticky(
    s: SessionView,
    requests: Seq<SynthesisView>,
    i: int,
    name: Seq<char>,
)
    requires
        0 <= i < requests.len(),
        requests[i].extra_fields.contains_key(name),
        forall|j: int|
            i < j < requests.len() ==> !(#[trigger] requests[j]).extra_fields.contains_key(name),
    ensures
        params_after(s, requests).extras.contains_key(name),
        params_after(s, requests).extras[name] == requests[i].extra_fields[name],
    decreases requests.len(),
{
    let before = requests.drop_last();
    if i < before.len() {
        assert(forall|j: int| i < j < before.len() ==> #[trigger] before[j] == requests[j]);
        law_extras_are_sticky(s, before, i, name);
        assert(requests[requests.len() - 1] == requests.last());
    }
}

/// A chunk size that is read from the environment holds whole samples.
pub proof fn law_configured_chunks_are_aligned(env: EnvironmentView)
    ensures
        configured(env) matches Ok(config) ==> valid_chunk_size(config.chunk_size),
{
}

/// Anything that can happen to a connection.
pub enum Event {
    /// A client event, and the UUID that is at hand should it ask for one.
    Client(ClientInput, Seq<char>),
    Reply(ReplyView),
    Audio(AudioInput),
}

/// Whether a connection takes such an event now.
pub open spec fn takes(c: ConnectionView, event: Event) -> bool {
    match event {
        Event::Client(_, _) => c.reads_client(),
        Event::Reply(_) => c.phase is Requesting,
        Event::Audio(_) => c.phase is Streaming,
    }
}

/// What an event does.
pub open spec fn step(config: ConfigView, c: ConnectionView, event: Event) -> (
    ConnectionView,
    Seq<ActionView>,
) {
    match event {
        Event::Client(input, fresh) => client_step(config, c, input, fresh),
        Event::Reply(reply) => reply_step(c, c.phase->Requesting_utterance_id, reply),
        Event::Audio(input) => audio_step(
            config,
            c,
            c.phase->Streaming_utterance_id,
            c.phase->pending,
            input,
        ),
    }
}

/// Where a row of events leads, and all actions on the way.
pub open spec fn run(config: ConfigView, c: ConnectionView, events: Seq<Event>) -> (
    ConnectionView,
    Seq<ActionView>,
)
    decreases events.len(),
{
    if events.len() == 0 {
        (c, Seq::empty())
    } else {
        let (before, actions) = run(config, c, events.drop_last());
        let (after, more) = step(config, before, events.last());
        (after, actions + more)
    }
}

/// Whether each event comes when the connection takes it.
pub open spec fn orderly(config: ConfigView, c: ConnectionView, events: Seq<Event>) -> bool
    decreases events.len(),
{
    events.len() > 0 ==> orderly(config, c, events.drop_last()) && takes(
        run(config, c, events.drop_last()).0,
        events.last(),
    )
}

/// The parameters in force change in two ways only: a request to speak that is taken up
/// puts into force what it gives, and a reset puts the defaults back. No audio, reply,
/// cancel, refusal or error touches them.
pub proof fn law_params_change_on_request(config: ConfigView, c: ConnectionView, event: Event)
    requires
        takes(c, event),
    ensures
        step(config, c, event).0.session == (match event {
            Event::Client(ClientInput::Text(read), _) => match message_of(read) {
                Ok(MessageView::Synthesize(request)) if c.phase is Idle => updated_params(
                    c.session,
                    request,
                ),
                Ok(MessageView::Reset) if c.phase is Idle || !has_text(read) => default_params(
                    config,
                ),
                _ => c.session,
            },
            _ => c.session,
        }),
{
}

/// The requests to speak that were taken up since the parameters were last reset.
pub open spec fn requests_in_force(
    config: ConfigView,
    c: ConnectionView,
    events: Seq<Event>,
) -> Seq<SynthesisView>
    decreases events.len(),
{
    if events.len() == 0 {
        Seq::empty()
    } else {
        let earlier = requests_in_force(config, c, events.drop_last());
        let phase = run(config, c, events.drop_last()).0.phase;
        match events.last() {
            Event::Client(ClientInput::Text(read), _) => match message_of(read) {
                Ok(MessageView::Synthesize(request)) if phase is Idle => earlier.push(request),
                Ok(MessageView::Reset) if phase is Idle || !has_text(read) => Seq::empty(),
                _ => earlier,
            },
            _ => earlier,
        }
    }
}

/// The parameters in force on a connection are the defaults with all that the requests
/// since the last reset gave, whatever else happened; and each backend request is made
/// from them and from the text of the latest of those requests.
pub proof fn law_requests_make_the_params(config: ConfigView, events: Seq<Event>)
    requires
        orderly(config, ConnectionView::opened(config), events),
    ensures
        ({
            let c = ConnectionView::opened(config);
            let requests = requests_in_force(config, c, events);
            let params = params_after(default_params(config), requests);
            &&& run(config, c, events).0.session == params
            &&& events.len() > 0 ==> {
                let before = run(config, c, events.drop_last()).0;
                let more = step(config, before, events.last()).1;
                forall|i: int|
                    0 <= i < more.len() && #[trigger] more[i] is Request ==> requests.len() > 0
                        && more[i]->Request_0 == request_for(config, params, requests.last().text)
            }
        }),
    decreases events.len(),
{
    if events.len() > 0 {
        let c = ConnectionView::opened(config);
        let before = run(config, c, events.drop_last()).0;
        law_requests_make_the_params(config, events.drop_last());
        law_params_change_on_request(config, before, events.last());
        let earlier = requests_in_force(config, c, events.drop_last());
        let requests = requests_in_force(config, c, events);
        if requests.len() > 0 {
            assert(earlier.push(requests.last()).drop_last() =~= earlier);
        }
    }
}

/// No member that steers the bridge reaches the backend, nor stays in force, whatever
/// happened on the connection before.
pub proof fn law_control_members_stay_here(config: ConfigView, events: Seq<Event>)
    requires
        orderly(config, ConnectionView::opened(config), events),
    ensures
        extras_are_extra(run(config, ConnectionView::opened(config), events).0.session),
        control_stays_here(run(config, ConnectionView::opened(config), events).1),
    decreases events.len(),
{
    if events.len() > 0 {
        law_control_members_stay_here(config, events.drop_last());
        let (before, actions) = run(config, ConnectionView::opened(config), events.drop_last());
        let (after, more) = step(config, before, events.last());
        law_params_change_on_request(config, before, events.last());
        assert(extras_are_extra(after.session));
        assert forall|i: int, name: Seq<char>|
            0 <= i < (actions + more).len() && (actions + more)[i] is Request
                && is_control_field(name) implies !(#[trigger] (actions
            + more)[i]->Request_0.body.contains_key(name)) by {
            if i < actions.len() {
                assert((actions + more)[i] == actions[i]);
                assert(!actions[i]->Request_0.body.contains_key(name));
            } else {
                assert((actions + more)[i] == more[i - actions.len()]);
                law_requests_are_sequential(config, before, events.last());
                lemma_control_is_not_bridge(name);
                if let Event::Client(ClientInput::Text(read), _) = events.last() {
                    let text = message_of(read)->Ok_0->Synthesize_0.text;
                    law_extras_are_forwarded(after.session, text, name);
                }
            }
        }
    }
}

/// What a client knows of the utterances from the frames that it got.
pub enum Heard {
    /// No utterance is open.
    Quiet,
    /// An utterance was started and not ended.
    Open(Seq<char>),
    /// The connection was closed.
    Ended,
    /// Frames came in an order that means nothing.
    Broken,
}

/// What a client knows after one more action.
pub open spec fn hear(h: Heard, action: ActionView) -> Heard {
    match action {
        ActionView::Request(_) => h,
        ActionView::Send(frame) => match (h, frame) {
            (Heard::Ended, _) => Heard::Broken,
            (Heard::Broken, _) => Heard::Broken,
            (_, FrameView::Pong(_)) => h,
            (_, FrameView::Close { .. }) => Heard::Ended,
            (_, FrameView::Error { utterance_id: None, .. }) => h,
            (Heard::Quiet, FrameView::Start { utterance_id, .. }) => Heard::Open(utterance_id),
            (Heard::Quiet, FrameView::Error { utterance_id: Some(_), .. }) => Heard::Quiet,
            (Heard::Quiet, _) => Heard::Broken,
            (Heard::Open(_), FrameView::Audio(_)) => h,
            (Heard::Open(id), FrameView::Done { utterance_id }) => if id == utterance_id {
                Heard::Quiet
            } else {
                Heard::Broken
            },
            (Heard::Open(id), FrameView::Cancelled { utterance_id }) => if id == utterance_id {
                Heard::Quiet
            } else {
                Heard::Broken
            },
            (Heard::Open(id), FrameView::Error { utterance_id: Some(about), .. }) => if id
                == about {
                Heard::Quiet
            } else {
                Heard::Broken
            },
            (Heard::Open(_), FrameView::Start { .. }) => Heard::Broken,
        },
    }
}

/// What a client knows after a row of actions.
pub open spec fn hear_all(h: Heard, actions: Seq<ActionView>) -> Heard
    decreases actions.len(),
{
    if actions.len() == 0 {
        h
    } else {
        hear(hear_all(h, actions.drop_last()), actions.last())
    }
}

/// What a client knows agrees with the phase.
pub open spec fn agrees(h: Heard, phase: PhaseView) -> bool {
    match phase {
        PhaseView::Idle => h is Quiet,
        PhaseView::Requesting { .. } => h is Quiet,
        PhaseView::Streaming { utterance_id, .. } => h == Heard::Open(utterance_id),
        PhaseView::Closed => !(h is Broken),
    }
}

proof fn lemma_hear_concat(h: Heard, a: Seq<ActionView>, b: Seq<ActionView>)
    ensures
        hear_all(h, a + b) == hear_all(hear_all(h, a), b),
    decreases b.len(),
{
    if b.len() == 0 {
        assert(a + b =~= a);
    } else {
        assert((a + b).drop_last() =~= a + b.drop_last());
        lemma_hear_concat(h, a, b.drop_last());
    }
}

proof fn lemma_hear_one(h: Heard, action: ActionView)
    ensures
        hear_all(h, seq![action]) == hear(h, action),
{
    assert(seq![action].drop_last() =~= Seq::<ActionView>::empty());
    reveal_with_fuel(hear_all, 2);
}

proof fn lemma_hear_audio(id: Seq<char>, frames: Seq<Seq<u8>>)
    ensures
        hear_all(Heard::Open(id), audio_sends(frames)) == Heard::Open(id),
    decreases frames.len(),
{
    if frames.len() > 0 {
        assert(audio_sends(frames).drop_last() =~= audio_sends(frames.drop_last()));
        lemma_hear_audio(id, frames.drop_last());
    }
}

proof fn lemma_step_is_heard(config: ConfigView, c: ConnectionView, event: Event, h: Heard)
    requires
        takes(c, event),
        agrees(h, c.phase),
    ensures
        agrees(hear_all(h, step(config, c, event).1), step(config, c, event).0.phase),
{
    let (after, actions) = step(config, c, event);
    if actions.len() == 1 {
        lemma_hear_one(h, actions[0]);
        assert(actions =~= seq![actions[0]]);
    }
    match event {
        Event::Audio(AudioInput::Bytes(bytes)) => {
            let buffer = c.phase->pending + bytes;
            if buffer.len() > config.max_buffer_size {
                lemma_hear_concat(h, seq![actions[0]], seq![actions[1]]);
                lemma_hear_one(h, actions[0]);
                lemma_hear_one(hear(h, actions[0]), actions[1]);
                assert(actions =~= seq![actions[0]] + seq![actions[1]]);
            } else {
                lemma_hear_audio(
                    c.phase->Streaming_utterance_id,
                    whole_frames(buffer, config.chunk_size),
                );
            }
        },
        Event::Audio(AudioInput::End) => {
            if actions.len() == 2 {
                lemma_hear_concat(h, seq![actions[0]], seq![actions[1]]);
                lemma_hear_one(h, actions[0]);
                lemma_hear_one(hear(h, actions[0]), actions[1]);
                assert(actions =~= seq![actions[0]] + seq![actions[1]]);
            }
        },
        _ => {},
    }
}

/// Whatever happens, a client hears utterances one at a time: each one that starts gets
/// its audio between its start frame and one frame that ends it and bears the same id; no
/// audio, end or second start comes outside of that, and nothing comes after a close.
pub proof fn law_utterances_are_framed(config: ConfigView, events: Seq<Event>)
    requires
        orderly(config, ConnectionView::opened(config), events),
    ensures
        ({
            let (c, actions) = run(config, ConnectionView::opened(config), events);
            agrees(hear_all(Heard::Quiet, actions), c.phase)
        }),
    decreases events.len(),
{
    if events.len() > 0 {
        let c = ConnectionView::opened(config);
        let (before, actions) = run(config, c, events.drop_last());
        law_utterances_are_framed(config, events.drop_last());
        lemma_step_is_heard(config, before, events.last(), hear_all(Heard::Quiet, actions));
        lemma_hear_concat(Heard::Quiet, actions, step(config, before, events.last()).1);
    }
}

/// One utterance at a time: the backend is asked only while none is in progress, by a
/// single request, and from then on one is in progress.
pub proof fn law_requests_are_sequential(config: ConfigView, c: ConnectionView, event: Event)
    requires
        takes(c, event),
    ensures
        ({
            let (after, actions) = step(config, c, event);
            (exists|i: int| 0 <= i < actions.len() && #[trigger] actions[i] is Request) ==> c.phase
                is Idle && after.phase is Requesting && actions.len() == 1
        }),
        step(config, c, event).0.phase is Requesting ==> step(config, c, event).1.len() == 1 && step(
            config,
            c,
            event,
        ).1[0] is Request,
{
}

/// A cancel ends the utterance that streams: one frame tells so, no audio follows, the
/// parameters stay, and the connection is ready for the next request.
pub proof fn law_cancel_ends_the_utterance(
    config: ConfigView,
    c: ConnectionView,
    read: Result<JsonView, Seq<char>>,
    fresh: Seq<char>,
)
    requires
        c.phase is Streaming,
        is_cancel(read),
    ensures
        client_step(config, c, ClientInput::Text(read), fresh) == (
            c.in_phase(PhaseView::Idle),
            seq![
                ActionView::Send(
                    FrameView::Cancelled { utterance_id: c.phase->Streaming_utterance_id },
                ),
            ],
        ),
{
}

/// A cancel while no utterance is in progress does nothing.
pub proof fn law_idle_cancel_does_nothing(
    config: ConfigView,
    c: ConnectionView,
    read: Result<JsonView, Seq<char>>,
    fresh: Seq<char>,
)
    requires
        c.phase is Idle,
        is_cancel(read),
    ensures
        client_step(config, c, ClientInput::Text(read), fresh) == (c, Seq::<ActionView>::empty()),
{
}

/// No message but a cancel touches the utterance that streams. A request to speak is
/// refused, under no utterance's id, and leaves the parameters alone.
pub proof fn law_streaming_goes_on(
    config: ConfigView,
    c: ConnectionView,
    read: Result<JsonView, Seq<char>>,
    fresh: Seq<char>,
)
    requires
        c.phase is Streaming,
        !is_cancel(read),
    ensures
        client_step(config, c, ClientInput::Text(read), fresh).0.phase == c.phase,
        has_text(read) ==> client_step(config, c, ClientInput::Text(read), fresh) == (
            c,
            error_send(None, in_progress_message(c.phase->Streaming_utterance_id)),
        ),
{
}

/// A text that is no message is answered by one error frame without an utterance's id, in
/// any phase in which it is read, and changes nothing; the connection stays open. While an
/// utterance streams, a `type` that no message has is passed over, and a text with a
/// `text` is told that it comes too early.
pub proof fn law_malformed_messages_are_answered(
    config: ConfigView,
    c: ConnectionView,
    read: Result<JsonView, Seq<char>>,
    fresh: Seq<char>,
)
    requires
        c.reads_client(),
        message_of(read) is Err,
        c.phase is Streaming ==> !has_text(read) && !(message_of(read)->Err_0 is UnknownType),
    ensures
        client_step(config, c, ClientInput::Text(read), fresh) == (
            c,
            error_send(None, message_of(read)->Err_0.message()),
        ),
{
}

/// No text closes a connection.
pub proof fn law_texts_keep_the_connection(
    config: ConfigView,
    c: ConnectionView,
    read: Result<JsonView, Seq<char>>,
    fresh: Seq<char>,
)
    requires
        c.reads_client(),
    ensures
        !(client_step(config, c, ClientInput::Text(read), fresh).0.phase is Closed),
{
}

/// A binary frame closes the connection as unsupported data, whatever is in progress.
pub proof fn law_binary_closes(config: ConfigView, c: ConnectionView, fresh: Seq<char>)
    requires
        c.reads_client(),
    ensures
        client_step(config, c, ClientInput::Binary, fresh) == (
            c.in_phase(PhaseView::Closed),
            seq![
                ActionView::Send(
                    FrameView::Close { code: 1003, reason: "Binary frames not supported"@ },
                ),
            ],
        ),
{
}

/// A reset forgets all that was said: the parameters are those of a fresh connection,
/// whatever they were. While an utterance streams, a reset with a `text` is taken for a
/// request to speak.
pub proof fn law_reset_forgets(
    config: ConfigView,
    c: ConnectionView,
    read: Result<JsonView, Seq<char>>,
    fresh: Seq<char>,
)
    requires
        c.reads_client(),
        message_of(read) == Ok::<MessageView, MessageErrorView>(MessageView::Reset),
        c.phase is Streaming ==> !has_text(read),
    ensures
        client_step(config, c, ClientInput::Text(read), fresh) == (
            c.reset(config),
            Seq::<ActionView>::empty(),
        ),
        c.phase is Idle ==> c.reset(config) == ConnectionView::opened(config),
{
}

/// A backend that refuses gets no start frame: the client hears one error under the
/// utterance's id and may ask again at once.
pub proof fn law_refusals_do_not_start(
    c: ConnectionView,
    utterance_id: Seq<char>,
    reply: ReplyView,
)
    requires
        reply matches ReplyView::Answered { status, .. } ==> !success_status(status),
    ensures
        reply_step(c, utterance_id, reply).0 == c.in_phase(PhaseView::Idle),
        reply_step(c, utterance_id, reply).1.len() == 1,
        reply_step(c, utterance_id, reply).1[0] matches ActionView::Send(
            FrameView::Error { utterance_id: Some(id), .. },
        ) && id == utterance_id,
{
}

proof fn lemma_prefix_fits(s: Seq<char>, limit: nat)
    ensures
        encode_utf8(prefix_within(s, limit)).len() <= limit,
        prefix_within(s, limit) == s.take(prefix_within(s, limit).len() as int),
        prefix_within(s, limit).len() <= s.len(),
        prefix_within(s, limit).len() < s.len() ==> encode_utf8(
            s.take(prefix_within(s, limit).len() as int + 1),
        ).len() > limit,
    decreases s.len(),
{
    if s.len() == 0 || encode_utf8(s).len() <= limit {
        assert(s.take(s.len() as int) =~= s);
    } else {
        lemma_prefix_fits(s.drop_last(), limit);
        let k = prefix_within(s, limit).len() as int;
        assert(s.drop_last().take(k) =~= s.take(k));
        if k + 1 < s.len() {
            assert(s.drop_last().take(k + 1) =~= s.take(k + 1));
        } else {
            assert(s.take(k + 1) =~= s);
        }
    }
}

/// A backend's error text is passed on whole where it has at most 512 bytes, else as the
/// longest prefix that has, with three dots.
pub proof fn law_error_texts_are_short(text: Seq<char>)
    ensures
        clipped_error(Some(text)) == text && encode_utf8(text).len() <= MAX_ERROR_TEXT || exists|
            k: int,
        |
            0 <= k < text.len() && encode_utf8(#[trigger] text.take(k)).len() <= MAX_ERROR_TEXT
                && encode_utf8(text.take(k + 1)).len() > MAX_ERROR_TEXT && clipped_error(Some(text))
                == text.take(k) + "..."@,
{
    if encode_utf8(text).len() > MAX_ERROR_TEXT {
        lemma_prefix_fits(text, MAX_ERROR_TEXT as nat);
        let k = prefix_within(text, MAX_ERROR_TEXT as nat).len() as int;
        assert(text.take(text.len() as int) =~= text);
        assert(clipped_error(Some(text)) == text.take(k) + "..."@);
    }
}

/// Less than one frame of audio is ever held back.
pub open spec fn holds_back_little(config: ConfigView, c: ConnectionView) -> bool {
    c.phase is Streaming ==> c.phase->pending.len() < config.chunk_size
}

/// Less than one frame of audio is held back, in every state that a connection can reach.
pub proof fn law_little_is_held_back(config: ConfigView, events: Seq<Event>)
    requires
        config.chunk_size > 0,
        orderly(config, ConnectionView::opened(config), events),
    ensures
        holds_back_little(config, run(config, ConnectionView::opened(config), events).0),
    decreases events.len(),
{
    if events.len() > 0 {
        law_little_is_held_back(config, events.drop_last());
        let before = run(config, ConnectionView::opened(config), events.drop_last()).0;
        if let Event::Audio(AudioInput::Bytes(bytes)) = events.last() {
            law_frames_have_fixed_size(before.phase->pending + bytes, config.chunk_size);
        }
    }
}

/// Whether every frame of audio among some actions holds whole samples.
pub open spec fn aligned(actions: Seq<ActionView>) -> bool {
    forall|i: int|
        0 <= i < actions.len() ==> (#[trigger] actions[i] matches ActionView::Send(
            FrameView::Audio(bytes),
        ) ==> bytes.len() % 2 == 0)
}

/// Every frame of audio that a client gets holds whole samples of two bytes.
pub proof fn law_audio_is_aligned(config: ConfigView, events: Seq<Event>)
    requires
        valid_chunk_size(config.chunk_size),
        orderly(config, ConnectionView::opened(config), events),
    ensures
        aligned(run(config, ConnectionView::opened(config), events).1),
    decreases events.len(),
{
    if events.len() > 0 {
        law_audio_is_aligned(config, events.drop_last());
        let (before, actions) = run(config, ConnectionView::opened(config), events.drop_last());
        let more = step(config, before, events.last()).1;
        if let Event::Audio(AudioInput::Bytes(bytes)) = events.last() {
            law_frames_are_aligned(before.phase->pending + bytes, config.chunk_size);
        }
        assert(aligned(more));
        assert forall|i: int| 0 <= i < (actions + more).len() implies (#[trigger] (actions
            + more)[i] matches ActionView::Send(FrameView::Audio(bytes)) ==> bytes.len() % 2
            == 0) by {
            if i < actions.len() {
                assert((actions + more)[i] == actions[i]);
            } else {
                assert((actions + more)[i] == more[i - actions.len()]);
            }
        }
    }
}

/// The pieces that the backend's stream brings among some events, in order.
pub open spec fn pieces_of(events: Seq<Event>) -> Seq<Seq<u8>>
    decreases events.len(),
{
    if events.len() == 0 {
        Seq::empty()
    } else {
        let earlier = pieces_of(events.drop_last());
        match events.last() {
            Event::Audio(AudioInput::Bytes(piece)) => earlier.push(piece),
            _ => earlier,
        }
    }
}

/// The frames of audio among some actions, in order.
pub open spec fn audio_frames(actions: Seq<ActionView>) -> Seq<Seq<u8>>
    decreases actions.len(),
{
    if actions.len() == 0 {
        Seq::empty()
    } else {
        let earlier = audio_frames(actions.drop_last());
        match actions.last() {
            ActionView::Send(FrameView::Audio(bytes)) => earlier.push(bytes),
            _ => earlier,
        }
    }
}

/// Whether an utterance streams before, between and after some events.
pub open spec fn streams_through(config: ConfigView, c: ConnectionView, events: Seq<Event>) -> bool {
    forall|i: int|
        0 <= i <= events.len() ==> (#[trigger] run(config, c, events.take(i))).0.phase is Streaming
}

proof fn lemma_streams_through_prefix(config: ConfigView, c: ConnectionView, events: Seq<Event>)
    requires
        events.len() > 0,
        streams_through(config, c, events),
    ensures
        streams_through(config, c, events.drop_last()),
        run(config, c, events.drop_last()).0.phase is Streaming,
        run(config, c, events).0.phase is Streaming,
{
    let before = events.drop_last();
    assert forall|i: int| 0 <= i <= before.len() implies (#[trigger] run(
        config,
        c,
        before.take(i),
    )).0.phase is Streaming by {
        assert(before.take(i) =~= events.take(i));
    }
    assert(before.take(before.len() as int) =~= before);
    assert(events.take(events.len() as int) =~= events);
}

proof fn lemma_audio_frames_concat(a: Seq<ActionView>, b: Seq<ActionView>)
    ensures
        audio_frames(a + b) == audio_frames(a) + audio_frames(b),
    decreases b.len(),
{
    if b.len() == 0 {
        assert(a + b =~= a);
    } else {
        assert((a + b).drop_last() =~= a + b.drop_last());
        lemma_audio_frames_concat(a, b.drop_last());
    }
}

proof fn lemma_audio_frames_of_sends(frames: Seq<Seq<u8>>)
    ensures
        audio_frames(audio_sends(frames)) == frames,
    decreases frames.len(),
{
    if frames.len() > 0 {
        assert(audio_sends(frames).drop_last() =~= audio_sends(frames.drop_last()));
        lemma_audio_frames_of_sends(frames.drop_last());
    }
}

proof fn lemma_one_action_without_audio(actions: Seq<ActionView>)
    requires
        actions.len() <= 1,
        actions.len() == 1 ==> !(actions[0] matches ActionView::Send(FrameView::Audio(_))),
    ensures
        audio_frames(actions) == Seq::<Seq<u8>>::empty(),
{
    if actions.len() == 1 {
        assert(actions.drop_last() =~= Seq::<ActionView>::empty());
        assert(audio_frames(actions.drop_last()) == Seq::<Seq<u8>>::empty());
    }
}

/// While an utterance streams, the connection has sent the frames of all that the
/// backend's stream brought so far, and holds the rest: whatever else happens meanwhile,
/// and however the stream was split.
pub proof fn law_stream_is_passed_on(config: ConfigView, c: ConnectionView, events: Seq<Event>)
    requires
        config.chunk_size > 0,
        c.phase is Streaming,
        c.phase->pending.len() == 0,
        orderly(config, c, events),
        streams_through(config, c, events),
    ensures
        ({
            let (after, actions) = run(config, c, events);
            let (frames, rest) = streamed(pieces_of(events), config.chunk_size);
            let stream = pieces_of(events).flatten();
            &&& after.phase == PhaseView::Streaming {
                utterance_id: c.phase->Streaming_utterance_id,
                pending: rest,
            }
            &&& audio_frames(actions) == frames
            &&& frames == whole_frames(stream, config.chunk_size)
            &&& rest == remainder(stream, config.chunk_size)
        }),
    decreases events.len(),
{
    law_pieces_do_not_matter(pieces_of(events), config.chunk_size);
    if events.len() == 0 {
        assert(c.phase->pending =~= Seq::<u8>::empty());
    } else {
        lemma_streams_through_prefix(config, c, events);
        law_stream_is_passed_on(config, c, events.drop_last());
        let (before, actions) = run(config, c, events.drop_last());
        let (after, more) = step(config, before, events.last());
        lemma_audio_frames_concat(actions, more);
        match events.last() {
            Event::Audio(AudioInput::Bytes(piece)) => {
                assert(pieces_of(events).drop_last() =~= pieces_of(events.drop_last()));
                lemma_audio_frames_of_sends(
                    whole_frames(before.phase->pending + piece, config.chunk_size),
                );
            },
            _ => {
                lemma_one_action_without_audio(more);
            },
        }
    }
}

/// Whether an event leaves an utterance to stream on, as far as the limit on held audio
/// allows: anything but a cancel, a binary frame, a client that leaves, and the end or the
/// failure of the backend's stream.
pub open spec fn lets_stream(event: Event) -> bool {
    match event {
        Event::Client(ClientInput::Text(read), _) => !is_cancel(read),
        Event::Client(input, _) => input is Ping || input is Pong || input is Failed,
        Event::Reply(_) => false,
        Event::Audio(input) => input is Bytes,
    }
}

/// Whether no piece makes the audio that is held more than is allowed.
pub open spec fn within_limit(config: ConfigView, pieces: Seq<Seq<u8>>) -> bool {
    forall|i: int| #![trigger pieces[i]]
        0 <= i < pieces.len() ==> streamed(pieces.take(i), config.chunk_size).1.len()
            + pieces[i].len() <= config.max_buffer_size
}

/// An utterance streams on through any events that let it, while its audio stays within
/// the limit.
pub proof fn law_stream_lasts(config: ConfigView, c: ConnectionView, events: Seq<Event>)
    requires
        config.chunk_size > 0,
        c.phase is Streaming,
        c.phase->pending.len() == 0,
        forall|i: int| 0 <= i < events.len() ==> lets_stream(#[trigger] events[i]),
        within_limit(config, pieces_of(events)),
    ensures
        orderly(config, c, events),
        streams_through(config, c, events),
    decreases events.len(),
{
    if events.len() == 0 {
        assert forall|i: int| 0 <= i <= events.len() implies (#[trigger] run(
            config,
            c,
            events.take(i),
        )).0.phase is Streaming by {
            assert(events.take(i) =~= events);
        }
    } else {
        let prefix = events.drop_last();
        let pieces = pieces_of(events);
        assert(events.last() == events[events.len() - 1]);
        if let Event::Audio(AudioInput::Bytes(piece)) = events.last() {
            let last = pieces.len() - 1;
            assert(pieces[last] == piece);
            assert(pieces.take(last) =~= pieces_of(prefix));
            assert forall|i: int| #![trigger pieces_of(prefix)[i]]
                0 <= i < pieces_of(prefix).len() implies streamed(
                pieces_of(prefix).take(i),
                config.chunk_size,
            ).1.len() + pieces_of(prefix)[i].len() <= config.max_buffer_size by {
                assert(pieces_of(prefix).take(i) =~= pieces.take(i));
                assert(pieces_of(prefix)[i] == pieces[i]);
            }
        }
        assert(forall|i: int| 0 <= i < prefix.len() ==> #[trigger] prefix[i] == events[i]);
        law_stream_lasts(config, c, prefix);
        law_stream_is_passed_on(config, c, prefix);
        assert(prefix.take(prefix.len() as int) =~= prefix);
        assert(run(config, c, events).0.phase is Streaming);
        assert forall|i: int| 0 <= i <= events.len() implies (#[trigger] run(
            config,
            c,
            events.take(i),
        )).0.phase is Streaming by {
            if i < events.len() {
                assert(events.take(i) =~= prefix.take(i));
            } else {
                assert(events.take(i) =~= events);
            }
        }
    }
}

/// A client gets every byte that the backend's stream brings until it ends, in order and
/// with one zero added where their number is odd, whatever else happens meanwhile; then it
/// is told that the utterance is done.
pub proof fn law_utterance_is_complete(config: ConfigView, c: ConnectionView, events: Seq<Event>)
    requires
        valid_chunk_size(config.chunk_size),
        c.phase is Streaming,
        c.phase->pending.len() == 0,
        orderly(config, c, events),
        streams_through(config, c, events),
    ensures
        ({
            let (after, actions) = run(config, c, events.push(Event::Audio(AudioInput::End)));
            &&& after.phase is Idle
            &&& audio_frames(actions).flatten() == padded(pieces_of(events).flatten())
            &&& actions.last() == ActionView::Send(
                FrameView::Done { utterance_id: c.phase->Streaming_utterance_id },
            )
        }),
{
    let all = events.push(Event::Audio(AudioInput::End));
    let pieces = pieces_of(events);
    let (frames, rest) = streamed(pieces, config.chunk_size);
    law_stream_is_passed_on(config, c, events);
    law_audio_is_complete(pieces, config.chunk_size);
    assert(all.drop_last() =~= events);
    let (before, sent) = run(config, c, events);
    let more = step(config, before, Event::Audio(AudioInput::End)).1;
    lemma_audio_frames_concat(sent, more);
    assert(more.drop_last().len() <= 1);
    match last_frame(rest) {
        Some(frame) => {
            assert(more.drop_last() =~= audio_sends(seq![frame]));
            lemma_audio_frames_of_sends(seq![frame]);
            assert(audio_frames(more) == seq![frame]);
            let whole = frames + seq![frame];
            assert(whole.drop_last() =~= frames);
            whole.lemma_flatten_and_flatten_alt_are_equivalent();
            frames.lemma_flatten_and_flatten_alt_are_equivalent();
        },
        None => {
            lemma_one_action_without_audio(more);
            assert(frames + Seq::<Seq<u8>>::empty() =~= frames);
            assert(frames.flatten() + Seq::<u8>::empty() =~= frames.flatten());
        },
    }
}

/// A stream that brings more than may be held ends the connection, and nothing less does:
/// the client is told why under the utterance's id, then the connection is closed.
pub proof fn law_overflow_closes(
    config: ConfigView,
    c: ConnectionView,
    utterance_id: Seq<char>,
    pending: Seq<u8>,
    bytes: Seq<u8>,
)
    ensures
        audio_step(config, c, utterance_id, pending, AudioInput::Bytes(bytes)).0.phase is Closed
            <==> pending.len() + bytes.len() > config.max_buffer_size,
        pending.len() + bytes.len() > config.max_buffer_size ==> ({
            let actions = audio_step(
                config,
                c,
                utterance_id,
                pending,
                AudioInput::Bytes(bytes),
            ).1;
            &&& actions.len() == 2
            &&& actions[0] matches ActionView::Send(
                FrameView::Error { utterance_id: Some(id), .. },
            ) && id == utterance_id
            &&& actions[1] matches ActionView::Send(FrameView::Close { code, .. }) && code == 1011
        }),
{
}

/// Frames that are written as JSON hold texts and unsigned integers alone, none of them
/// under the name that `serde_json` keeps for raw JSON, so that a client reads in them what
/// was written; a start frame does where its sample rate is an unsigned integer.
pub proof fn law_frames_can_be_read(frame: FrameView)
    requires
        frame.fields() is Some,
        frame matches FrameView::Start { sample_rate, .. } ==> exists|n: u64|
            sample_rate == json_number(n),
    ensures
        flat(frame.fields()->0),
{
    reveal_strlit("type");
    reveal_strlit("utterance_id");
    reveal_strlit("sample_rate");
    reveal_strlit("channels");
    reveal_strlit("message");
    reveal_strlit("$serde_json::private::RawValue");
    assert("type"@.len() == 4 && "utterance_id"@.len() == 12 && "sample_rate"@.len() == 11);
    assert("channels"@.len() == 8 && "message"@.len() == 7);
    assert("$serde_json::private::RawValue"@.len() == 30);
}

/// The type that a client reads in a frame tells what the frame is.
pub proof fn law_frames_tell_their_type(frame: FrameView)
    requires
        frame.fields() is Some,
    ensures
        text_member(frame.fields()->0, "type"@) == Some(
            match frame {
                FrameView::Start { .. } => "start"@,
                FrameView::Done { .. } => "done"@,
                FrameView::Cancelled { .. } => "cancelled"@,
                _ => "error"@,
            },
        ),
{
    reveal_strlit("type");
    reveal_strlit("utterance_id");
    reveal_strlit("sample_rate");
    reveal_strlit("channels");
    reveal_strlit("message");
    assert("type"@.len() == 4 && "utterance_id"@.len() == 12 && "sample_rate"@.len() == 11);
    assert("channels"@.len() == 8 && "message"@.len() == 7);
}

/// A start frame names the sample rate that the backend was asked for: when a backend
/// accepts, the last action before was its request, and the one start frame that follows
/// bears the rate in that request's body and the id that the utterance was begun under.
pub proof fn law_start_names_the_rate_asked_for(
    config: ConfigView,
    events: Seq<Event>,
    status: nat,
    error_body: Option<Seq<char>>,
)
    requires
        orderly(config, ConnectionView::opened(config), events),
        run(config, ConnectionView::opened(config), events).0.phase is Requesting,
        200 <= status < 300,
    ensures
        ({
            let (asking, actions) = run(config, ConnectionView::opened(config), events);
            let reply = Event::Reply(ReplyView::Answered { status, error_body });
            let more = step(config, asking, reply).1;
            &&& actions.len() > 0
            &&& actions.last() matches ActionView::Request(request) && {
                &&& request.body.contains_key("sample_rate"@)
                &&& more.len() == 1
                &&& more[0] matches ActionView::Send(FrameView::Start { utterance_id, sample_rate })
                    && request.body["sample_rate"@] == JsonView::Number(sample_rate) && utterance_id
                    == asking.phase->Requesting_utterance_id
            }
        }),
{
    let c = ConnectionView::opened(config);
    let (before, earlier) = run(config, c, events.drop_last());
    let (asking, more) = step(config, before, events.last());
    law_requests_are_sequential(config, before, events.last());
    law_requests_make_the_params(config, events);
    assert((earlier + more).last() == more[0]);
    law_bridge_fields_win(
        asking.session,
        requests_in_force(config, c, events).last().text,
    );
    assert(more[0] is Request);
}

/// Every action has its cause. A request comes of a message with a `text` and without a
/// `type`; a start of a status from 200 to 299; audio of the backend's bytes or their end;
/// a done of their end alone; a cancelled of a message whose `type` is `cancel`; a pong of a
/// ping with the same bytes; a close of a binary frame or of too much audio.
pub proof fn law_actions_have_their_cause(
    config: ConfigView,
    c: ConnectionView,
    event: Event,
    i: int,
)
    requires
        takes(c, event),
        0 <= i < step(config, c, event).1.len(),
    ensures
        match step(config, c, event).1[i] {
            ActionView::Request(_) => event matches Event::Client(
                ClientInput::Text(Ok(JsonView::Object(o))),
                _,
            ) && c.phase is Idle && o.contains_key("text"@) && o["text"@] is Text && !(
            o.contains_key("type"@) && o["type"@] is Text),
            ActionView::Send(FrameView::Start { .. }) => event matches Event::Reply(
                ReplyView::Answered { status, .. },
            ) && 200 <= status < 300,
            ActionView::Send(FrameView::Audio(_)) => event matches Event::Audio(input) && (
            input is Bytes || input is End),
            ActionView::Send(FrameView::Done { .. }) => event matches Event::Audio(AudioInput::End),
            ActionView::Send(FrameView::Cancelled { .. }) => event matches Event::Client(
                ClientInput::Text(Ok(JsonView::Object(o))),
                _,
            ) && c.phase is Streaming && o.contains_key("type"@) && o["type"@] == JsonView::Text(
                "cancel"@,
            ),
            ActionView::Send(FrameView::Pong(data)) => event matches Event::Client(
                ClientInput::Ping(sent),
                _,
            ) && sent == data,
            ActionView::Send(FrameView::Close { code, .. }) => (code == 1003
                && event matches Event::Client(ClientInput::Binary, _)) || (code == 1011
                && event matches Event::Audio(AudioInput::Bytes(_))),
            ActionView::Send(FrameView::Error { .. }) => true,
        },
{
}

} // verus!
