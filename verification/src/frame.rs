//! The records of the wire: one JSON text per line, each a reply to a
//! request or a notification of an event.

use vstd::prelude::*;
use crate::error::{Error, ErrorCode, ErrorView};
use crate::json::{
    items_view, lemma_array_view, lemma_members_lookup, lemma_members_push, lookup, Json,
    JsonView,
};
use crate::text::text_eq;
use crate::wire::{json_text, parse_json, parsed_json, to_text, writable};

verus! {

/// A notification as it came: the name of the event, and the whole record
/// with the fields that belong to it.
#[derive(Debug, PartialEq, Eq)]
pub struct Notification {
    pub event: String,
    pub fields: Json,
}

/// Mathematical model of a [`Notification`].
pub struct NotificationView {
    pub event: Seq<char>,
    pub fields: JsonView,
}

impl View for Notification {
    type V = NotificationView;

    open spec fn view(&self) -> NotificationView {
        NotificationView { event: self.event@, fields: self.fields@ }
    }
}

/// One record of the wire.
#[derive(Debug, PartialEq, Eq)]
pub enum Frame {
    /// The answer to the request with the given identifier: `"success"` or the
    /// player's error text, and the payload if there is one.
    Reply { error: String, data: Option<Json>, request_id: u64 },
    Notification(Notification),
}

/// Mathematical model of a [`Frame`].
pub enum FrameView {
    Reply { error: Seq<char>, data: Option<JsonView>, request_id: nat },
    Notification(NotificationView),
}

impl View for Frame {
    type V = FrameView;

    open spec fn view(&self) -> FrameView {
        match self {
            Frame::Reply { error, data, request_id } => FrameView::Reply {
                error: error@,
                data: match data {
                    Some(payload) => Some(payload@),
                    None => None,
                },
                request_id: *request_id as nat,
            },
            Frame::Notification(notification) => FrameView::Notification(notification@),
        }
    }
}

/// The record that a JSON value is. An object with a string under `"event"`
/// is a notification. Any other object with a string under `"error"` and an
/// identifier within `u64` under `"request_id"` is a reply. Nothing else is a
/// record.
pub open spec fn frame_of(json: JsonView) -> Option<FrameView> {
    match json.member("event"@) {
        Some(JsonView::String(event)) => Some(
            FrameView::Notification(NotificationView { event, fields: json }),
        ),
        _ => match (json.member("error"@), json.member("request_id"@)) {
            (Some(JsonView::String(error)), Some(JsonView::Integer(id))) => if 0 <= id
                <= u64::MAX {
                Some(FrameView::Reply { error, data: json.member("data"@), request_id: id as nat })
            } else {
                None
            },
            _ => None,
        },
    }
}

/// The record that a line of text is: `JsonParseError` with serde_json's
/// message where the line is no JSON, `UnexpectedValue` where the JSON is no
/// record.
pub open spec fn frame_of_line(line: Seq<char>) -> Result<FrameView, ErrorView> {
    match parsed_json(line) {
        Ok(json) => match frame_of(json) {
            Some(frame) => Ok(frame),
            None => Err(ErrorView::UnexpectedValue),
        },
        Err(message) => Err(ErrorView::JsonParseError(message)),
    }
}

/// Takes the last member with the given key out of a run of members.
pub fn take_member(members: Vec<(String, Json)>, key: &str) -> (found: Option<Json>)
    ensures
        match found {
            Some(value) => lookup(members@, key@) == Some(value@),
            None => lookup(members@, key@) is None,
        },
{
    let mut rest = members;
    loop
        invariant
            lookup(members@, key@) == lookup(rest@, key@),
        decreases rest@.len(),
    {
        let ghost before = rest@;
        match rest.pop() {
            Some((name, value)) => {
                assert(before.last() == (name, value));
                assert(rest@ == before.drop_last());
                if text_eq(name.as_str(), key) {
                    return Some(value);
                }
            },
            None => {
                return None;
            },
        }
    }
}

/// Tells what record a JSON value is.
pub fn classify(json: Json) -> (classified: Result<Frame, Error>)
    ensures
        match classified {
            Ok(frame) => frame_of(json@) == Some(frame@),
            Err(error) => frame_of(json@) is None && error@ == ErrorView::UnexpectedValue,
        },
{
    match json.get("event") {
        Some(Json::String(event)) => {
            let event = event.clone();
            return Ok(Frame::Notification(Notification { event, fields: json }));
        },
        _ => {},
    }
    let error = match json.get("error") {
        Some(Json::String(error)) => error.clone(),
        _ => {
            return Err(Error(ErrorCode::UnexpectedValue));
        },
    };
    let request_id = match json.get("request_id") {
        Some(Json::Integer(id)) => {
            if 0 <= *id && *id <= 18446744073709551615i128 {
                *id as u64
            } else {
                return Err(Error(ErrorCode::UnexpectedValue));
            }
        },
        _ => {
            return Err(Error(ErrorCode::UnexpectedValue));
        },
    };
    match json {
        Json::Object(members) => {
            proof {
                lemma_members_lookup(members@, "data"@);
            }
            let data = take_member(members, "data");
            Ok(Frame::Reply { error, data, request_id })
        },
        _ => Err(Error(ErrorCode::UnexpectedValue)),
    }
}

/// Reads one line of the wire as a record.
pub fn read_frame(line: &str) -> (read: Result<Frame, Error>)
    ensures
        match read {
            Ok(frame) => frame_of_line(line@) == Ok::<FrameView, ErrorView>(frame@),
            Err(error) => frame_of_line(line@) == Err::<FrameView, ErrorView>(error@),
        },
{
    match parse_json(line) {
        Ok(json) => classify(json),
        Err(error) => Err(error),
    }
}

/// The request that asks for a command under an identifier:
/// `{"command": [...], "request_id": ...}`.
pub open spec fn request_of(command: Seq<JsonView>, request_id: nat) -> JsonView {
    JsonView::Object(
        Map::<Seq<char>, JsonView>::empty().insert("command"@, JsonView::Array(command)).insert(
            "request_id"@,
            JsonView::Integer(request_id as int),
        ),
    )
}

/// Writes a request as one line of the wire, the newline included. A command
/// with a word that serde_json cannot hold is refused with `UnsupportedType`.
pub fn encode_request(command: Vec<Json>, request_id: u64) -> (encoded: Result<String, Error>)
    ensures
        match encoded {
            Ok(line) => line@ == json_text(request_of(items_view(command@), request_id as nat))
                + "\n"@ && forall|i: int|
                0 <= i < command@.len() ==> writable(#[trigger] &command@[i]),
            Err(error) => error@ == ErrorView::UnsupportedType && exists|i: int|
                0 <= i < command@.len() && !writable(#[trigger] &command@[i]),
        },
{
    proof {
        lemma_array_view(command);
    }
    let ghost words = command@;
    let mut members: Vec<(String, Json)> = Vec::new();
    members.push((String::from_str("command"), Json::Array(command)));
    members.push((String::from_str("request_id"), Json::Integer(request_id as i128)));
    let request = Json::Object(members);
    proof {
        let none = Seq::<(String, Json)>::empty();
        lemma_members_push(none, members@[0]);
        lemma_members_push(none.push(members@[0]), members@[1]);
        assert(members@ =~= none.push(members@[0]).push(members@[1]));
        assert(request@ == request_of(items_view(words), request_id as nat));
        assert(writable(&request) <==> forall|i: int|
            0 <= i < words.len() ==> writable(#[trigger] &words[i])) by {
            assert(writable(&members@[1].1));
            assert(writable(&request) <==> writable(&members@[0].1)) by {
                if writable(&members@[0].1) {
                    assert forall|i: int| 0 <= i < members@.len() implies writable(
                        &(#[trigger] members@[i]).1,
                    ) by {}
                }
            }
        }
    }
    match to_text(&request) {
        Some(text) => Ok(text.concat("\n")),
        None => Err(Error(ErrorCode::UnsupportedType)),
    }
}

} // verus!
