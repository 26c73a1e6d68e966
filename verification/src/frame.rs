//! What the bridge sends to a client.
use crate::json::{
    flat, json_number, new_object, number, object_text, reads_back, set_number,
    set_text, write_object, JsonView,
};
use crate::text::text_view;
use vstd::prelude::*;
use vstd::string::*;

verus! {

/// A frame for the client. `Audio`, `Pong` and `Close` are WebSocket frames of their own
/// kind, the others are JSON texts.
#[allow(inconsistent_fields)]
pub enum ServerFrame {
    Start { utterance_id: String, sample_rate: serde_json::Number },
    Audio(Vec<u8>),
    Done { utterance_id: String },
    Cancelled { utterance_id: String },
    Error { utterance_id: Option<String>, message: String },
    Pong(Vec<u8>),
    Close { code: u16, reason: String },
}

#[verifier::ext_equal]
#[allow(inconsistent_fields)]
pub enum FrameView {
    Start { utterance_id: Seq<char>, sample_rate: serde_json::Number },
    Audio(Seq<u8>),
    Done { utterance_id: Seq<char> },
    Cancelled { utterance_id: Seq<char> },
    Error { utterance_id: Option<Seq<char>>, message: Seq<char> },
    Pong(Seq<u8>),
    Close { code: nat, reason: Seq<char> },
}

impl View for ServerFrame {
    type V = FrameView;

    open spec fn view(&self) -> FrameView {
        match self {
            ServerFrame::Start { utterance_id, sample_rate } => FrameView::Start {
                utterance_id: utterance_id@,
                sample_rate: *sample_rate,
            },
            ServerFrame::Audio(bytes) => FrameView::Audio(bytes@),
            ServerFrame::Done { utterance_id } => FrameView::Done { utterance_id: utterance_id@ },
            ServerFrame::Cancelled { utterance_id } => FrameView::Cancelled {
                utterance_id: utterance_id@,
            },
            ServerFrame::Error { utterance_id, message } => FrameView::Error {
                utterance_id: text_view(*utterance_id),
                message: message@,
            },
            ServerFrame::Pong(data) => FrameView::Pong(data@),
            ServerFrame::Close { code, reason } => FrameView::Close {
                code: *code as nat,
                reason: reason@,
            },
        }
    }
}

impl FrameView {
    /// The members of the JSON object that the frame is written as, if it is one.
    pub open spec fn fields(self) -> Option<Map<Seq<char>, JsonView>> {
        match self {
            FrameView::Start { utterance_id, sample_rate } => Some(
                Map::empty().insert("type"@, JsonView::Text("start"@)).insert(
                    "utterance_id"@,
                    JsonView::Text(utterance_id),
                ).insert("sample_rate"@, JsonView::Number(sample_rate)).insert(
                    "channels"@,
                    JsonView::Number(json_number(1)),
                ),
            ),
            FrameView::Done { utterance_id } => Some(
                Map::empty().insert("type"@, JsonView::Text("done"@)).insert(
                    "utterance_id"@,
                    JsonView::Text(utterance_id),
                ),
            ),
            FrameView::Cancelled { utterance_id } => Some(
                Map::empty().insert("type"@, JsonView::Text("cancelled"@)).insert(
                    "utterance_id"@,
                    JsonView::Text(utterance_id),
                ),
            ),
            FrameView::Error { utterance_id, message } => {
                let fields = Map::empty().insert("type"@, JsonView::Text("error"@)).insert(
                    "message"@,
                    JsonView::Text(message),
                );
                match utterance_id {
                    Some(id) => Some(fields.insert("utterance_id"@, JsonView::Text(id))),
                    None => Some(fields),
                }
            },
            _ => None,
        }
    }

    /// Whether the connection is over when the frame cannot be sent. The others are sent
    /// in vain without harm.
    pub open spec fn must_arrive(self) -> bool {
        self is Start || self is Audio || self is Done
    }
}

impl ServerFrame {
    /// The JSON text of the frame, if it is written as one.
    pub fn text(&self) -> (r: Option<String>)
        ensures
            r is Some <==> self@.fields() is Some,
            r matches Some(text) ==> text@ == object_text(self@.fields()->0) && (flat(
                self@.fields()->0,
            ) ==> reads_back(text@, self@.fields()->0)),
    {
        let mut o = new_object();
        match self {
            ServerFrame::Start { utterance_id, sample_rate } => {
                set_text(&mut o, "type", "start");
                set_text(&mut o, "utterance_id", utterance_id.as_str());
                set_number(&mut o, "sample_rate", sample_rate);
                set_number(&mut o, "channels", &number(1));
            },
            ServerFrame::Done { utterance_id } => {
                set_text(&mut o, "type", "done");
                set_text(&mut o, "utterance_id", utterance_id.as_str());
            },
            ServerFrame::Cancelled { utterance_id } => {
                set_text(&mut o, "type", "cancelled");
                set_text(&mut o, "utterance_id", utterance_id.as_str());
            },
            ServerFrame::Error { utterance_id, message } => {
                set_text(&mut o, "type", "error");
                set_text(&mut o, "message", message.as_str());
                if let Some(id) = utterance_id {
                    set_text(&mut o, "utterance_id", id.as_str());
                }
            },
            _ => return None,
        }
        Some(write_object(o))
    }

    /// Whether the connection is over when the frame cannot be sent.
    pub fn must_arrive(&self) -> (r: bool)
        ensures
            r == self@.must_arrive(),
    {
        matches!(self, ServerFrame::Start { .. } | ServerFrame::Audio(_) | ServerFrame::Done { .. })
    }
}

/// The members that each frame is written with: these, with these values, and no others.
/// Audio, pongs and closes are not written as JSON.
pub proof fn law_frames_hold_their_members(frame: FrameView, name: Seq<char>)
    ensures
        match frame {
            FrameView::Start { utterance_id, sample_rate } => frame.fields() matches Some(o) && {
                &&& o.contains_key(name) <==> name == "type"@ || name == "utterance_id"@ || name
                    == "sample_rate"@ || name == "channels"@
                &&& o["type"@] == JsonView::Text("start"@)
                &&& o["utterance_id"@] == JsonView::Text(utterance_id)
                &&& o["sample_rate"@] == JsonView::Number(sample_rate)
                &&& o["channels"@] == JsonView::Number(json_number(1))
            },
            FrameView::Done { utterance_id } => frame.fields() matches Some(o) && {
                &&& o.contains_key(name) <==> name == "type"@ || name == "utterance_id"@
                &&& o["type"@] == JsonView::Text("done"@)
                &&& o["utterance_id"@] == JsonView::Text(utterance_id)
            },
            FrameView::Cancelled { utterance_id } => frame.fields() matches Some(o) && {
                &&& o.contains_key(name) <==> name == "type"@ || name == "utterance_id"@
                &&& o["type"@] == JsonView::Text("cancelled"@)
                &&& o["utterance_id"@] == JsonView::Text(utterance_id)
            },
            FrameView::Error { utterance_id, message } => frame.fields() matches Some(o) && {
                &&& o.contains_key(name) <==> name == "type"@ || name == "message"@ || (name
                    == "utterance_id"@ && utterance_id is Some)
                &&& o["type"@] == JsonView::Text("error"@)
                &&& o["message"@] == JsonView::Text(message)
                &&& utterance_id matches Some(id) ==> o["utterance_id"@] == JsonView::Text(id)
            },
            FrameView::Audio(_) => frame.fields() is None,
            FrameView::Pong(_) => frame.fields() is None,
            FrameView::Close { .. } => frame.fields() is None,
        },
{
    reveal_strlit("type");
    reveal_strlit("utterance_id");
    reveal_strlit("sample_rate");
    reveal_strlit("channels");
    reveal_strlit("message");
    assert("type"@.len() == 4 && "utterance_id"@.len() == 12 && "sample_rate"@.len() == 11);
    assert("channels"@.len() == 8 && "message"@.len() == 7);
}

/// A connection is over when a start frame, audio or a done frame is lost, and goes on when
/// any other frame is.
pub proof fn law_frames_that_must_arrive(frame: FrameView)
    ensures
        match frame {
            FrameView::Start { .. } => frame.must_arrive(),
            FrameView::Audio(_) => frame.must_arrive(),
            FrameView::Done { .. } => frame.must_arrive(),
            FrameView::Cancelled { .. } => !frame.must_arrive(),
            FrameView::Error { .. } => !frame.must_arrive(),
            FrameView::Pong(_) => !frame.must_arrive(),
            FrameView::Close { .. } => !frame.must_arrive(),
        },
{
}

} // verus!
