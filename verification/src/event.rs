//! Events of the player, and how a notification decodes to one.

use vstd::prelude::*;
use crate::error::{Error, ErrorCode, ErrorView};
use crate::frame::{Notification, NotificationView};
use crate::json::{items_view, lemma_array_view, Json, JsonView};
use crate::text::text_eq;
use crate::value::{data_of, entries_view, json_to_value, DataView, MpvDataType};

verus! {

/// A property of the player as a change notification reports it. A time is
/// held as its decimal text.
#[derive(Debug, PartialEq, Eq)]
pub enum Property {
    Path(Option<String>),
    Pause(bool),
    PlaybackTime(Option<String>),
    Duration(Option<String>),
    Metadata(Option<Vec<(String, MpvDataType)>>),
    /// A property that has no variant of its own.
    Unknown { name: String, data: MpvDataType },
}

/// Mathematical model of a [`Property`].
pub enum PropertyView {
    Path(Option<Seq<char>>),
    Pause(bool),
    PlaybackTime(Option<Seq<char>>),
    Duration(Option<Seq<char>>),
    Metadata(Option<Map<Seq<char>, DataView>>),
    Unknown { name: Seq<char>, data: DataView },
}

impl View for Property {
    type V = PropertyView;

    open spec fn view(&self) -> PropertyView {
        match self {
            Property::Path(path) => PropertyView::Path(
                match path {
                    Some(text) => Some(text@),
                    None => None,
                },
            ),
            Property::Pause(paused) => PropertyView::Pause(*paused),
            Property::PlaybackTime(time) => PropertyView::PlaybackTime(
                match time {
                    Some(text) => Some(text@),
                    None => None,
                },
            ),
            Property::Duration(time) => PropertyView::Duration(
                match time {
                    Some(text) => Some(text@),
                    None => None,
                },
            ),
            Property::Metadata(metadata) => PropertyView::Metadata(
                match metadata {
                    Some(entries) => Some(entries_view(entries@)),
                    None => None,
                },
            ),
            Property::Unknown { name, data } => PropertyView::Unknown { name: name@, data: data@ },
        }
    }
}

/// An event of the player.
#[derive(Debug, PartialEq, Eq)]
pub enum Event {
    Shutdown,
    StartFile,
    EndFile,
    FileLoaded,
    TracksChanged,
    TrackSwitched,
    Idle,
    Pause,
    Unpause,
    Tick,
    VideoReconfig,
    AudioReconfig,
    MetadataUpdate,
    Seek,
    PlaybackRestart,
    /// An observed property changed; `id` is the one it was observed under.
    PropertyChange { id: usize, property: Property },
    ChapterChange,
    ClientMessage { args: Vec<String> },
    /// An event that has no variant of its own.
    Unimplemented,
}

/// Mathematical model of an [`Event`].
pub enum EventView {
    Shutdown,
    StartFile,
    EndFile,
    FileLoaded,
    TracksChanged,
    TrackSwitched,
    Idle,
    Pause,
    Unpause,
    Tick,
    VideoReconfig,
    AudioReconfig,
    MetadataUpdate,
    Seek,
    PlaybackRestart,
    PropertyChange { id: nat, property: PropertyView },
    ChapterChange,
    ClientMessage { args: Seq<Seq<char>> },
    Unimplemented,
}

/// The views of a run of strings, one by one.
pub open spec fn texts_of(texts: Seq<String>) -> Seq<Seq<char>> {
    Seq::new(texts.len(), |i: int| texts[i]@)
}

impl View for Event {
    type V = EventView;

    open spec fn view(&self) -> EventView {
        match self {
            Event::Shutdown => EventView::Shutdown,
            Event::StartFile => EventView::StartFile,
            Event::EndFile => EventView::EndFile,
            Event::FileLoaded => EventView::FileLoaded,
            Event::TracksChanged => EventView::TracksChanged,
            Event::TrackSwitched => EventView::TrackSwitched,
            Event::Idle => EventView::Idle,
            Event::Pause => EventView::Pause,
            Event::Unpause => EventView::Unpause,
            Event::Tick => EventView::Tick,
            Event::VideoReconfig => EventView::VideoReconfig,
            Event::AudioReconfig => EventView::AudioReconfig,
            Event::MetadataUpdate => EventView::MetadataUpdate,
            Event::Seek => EventView::Seek,
            Event::PlaybackRestart => EventView::PlaybackRestart,
            Event::PropertyChange { id, property } => EventView::PropertyChange {
                id: *id as nat,
                property: property@,
            },
            Event::ChapterChange => EventView::ChapterChange,
            Event::ClientMessage { args } => EventView::ClientMessage { args: texts_of(args@) },
            Event::Unimplemented => EventView::Unimplemented,
        }
    }
}

/// The property that a name and a value stand for. A property with a variant
/// of its own must have a value of that variant's kind, or none; any other
/// name gives `Unknown`.
pub open spec fn property_of(name: Seq<char>, data: DataView) -> Result<PropertyView, ErrorView> {
    if name == "path"@ {
        match data {
            DataView::String(path) => Ok(PropertyView::Path(Some(path))),
            DataView::Null => Ok(PropertyView::Path(None)),
            _ => Err(ErrorView::ValueDoesNotContainString),
        }
    } else if name == "pause"@ {
        match data {
            DataView::Bool(paused) => Ok(PropertyView::Pause(paused)),
            _ => Err(ErrorView::ValueDoesNotContainBool),
        }
    } else if name == "playback-time"@ {
        match data {
            DataView::Double(time) => Ok(PropertyView::PlaybackTime(Some(time))),
            DataView::Null => Ok(PropertyView::PlaybackTime(None)),
            _ => Err(ErrorView::ValueDoesNotContainF64),
        }
    } else if name == "duration"@ {
        match data {
            DataView::Double(time) => Ok(PropertyView::Duration(Some(time))),
            DataView::Null => Ok(PropertyView::Duration(None)),
            _ => Err(ErrorView::ValueDoesNotContainF64),
        }
    } else if name == "metadata"@ {
        match data {
            DataView::HashMap(entries) => Ok(PropertyView::Metadata(Some(entries))),
            DataView::Null => Ok(PropertyView::Metadata(None)),
            _ => Err(ErrorView::ValueDoesNotContainHashMap),
        }
    } else {
        Ok(PropertyView::Unknown { name, data })
    }
}

/// The strings that a run of values is, if each of them is a string.
pub open spec fn strings_of(items: Seq<JsonView>) -> Option<Seq<Seq<char>>> {
    if forall|i: int| 0 <= i < items.len() ==> (#[trigger] items[i]) is String {
        Some(Seq::new(items.len(), |i: int| items[i]->String_0))
    } else {
        None
    }
}

/// The identifier that a property-change notification carries. One that is
/// no integer, or absent, counts as 0; one outside `usize` is refused.
pub open spec fn observer_of(fields: JsonView) -> Result<nat, ErrorView> {
    match fields.member("id"@) {
        Some(JsonView::Integer(id)) => if 0 <= id <= usize::MAX {
            Ok(id as nat)
        } else {
            Err(ErrorView::ValueDoesNotContainUsize)
        },
        _ => Ok(0),
    }
}

/// The value that a property-change notification carries; null where it
/// carries none, `None` where the value has no domain value.
pub open spec fn payload_of(fields: JsonView) -> Option<DataView> {
    match fields.member("data"@) {
        Some(json) => data_of(json),
        None => Some(DataView::Null),
    }
}

/// The event that a property-change notification with the given fields
/// reports. The name must be a string; then the identifier, the value and
/// the property are decoded, and the first of them that fails gives the
/// error.
pub open spec fn property_change_of(fields: JsonView) -> Result<EventView, ErrorView> {
    match fields.member("name"@) {
        Some(JsonView::String(name)) => match observer_of(fields) {
            Ok(id) => match payload_of(fields) {
                Some(data) => match property_of(name, data) {
                    Ok(property) => Ok(EventView::PropertyChange { id, property }),
                    Err(error) => Err(error),
                },
                None => Err(ErrorView::UnsupportedType),
            },
            Err(error) => Err(error),
        },
        _ => Err(ErrorView::JsonContainsUnexptectedType),
    }
}

/// The event that a notification reports. A name outside the vocabulary
/// gives `Unimplemented`, which is no error.
pub open spec fn event_of(notification: NotificationView) -> Result<EventView, ErrorView> {
    let name = notification.event;
    if name == "shutdown"@ {
        Ok(EventView::Shutdown)
    } else if name == "start-file"@ {
        Ok(EventView::StartFile)
    } else if name == "file-loaded"@ {
        Ok(EventView::FileLoaded)
    } else if name == "seek"@ {
        Ok(EventView::Seek)
    } else if name == "playback-restart"@ {
        Ok(EventView::PlaybackRestart)
    } else if name == "idle"@ {
        Ok(EventView::Idle)
    } else if name == "tick"@ {
        Ok(EventView::Tick)
    } else if name == "video-reconfig"@ {
        Ok(EventView::VideoReconfig)
    } else if name == "audio-reconfig"@ {
        Ok(EventView::AudioReconfig)
    } else if name == "tracks-changed"@ {
        Ok(EventView::TracksChanged)
    } else if name == "track-switched"@ {
        Ok(EventView::TrackSwitched)
    } else if name == "pause"@ {
        Ok(EventView::Pause)
    } else if name == "unpause"@ {
        Ok(EventView::Unpause)
    } else if name == "metadata-update"@ {
        Ok(EventView::MetadataUpdate)
    } else if name == "chapter-change"@ {
        Ok(EventView::ChapterChange)
    } else if name == "end-file"@ {
        Ok(EventView::EndFile)
    } else if name == "property-change"@ {
        property_change_of(notification.fields)
    } else if name == "client-message"@ {
        match notification.fields.member("args"@) {
            Some(JsonView::Array(items)) => match strings_of(items) {
                Some(args) => Ok(EventView::ClientMessage { args }),
                None => Err(ErrorView::JsonContainsUnexptectedType),
            },
            _ => Err(ErrorView::JsonContainsUnexptectedType),
        }
    } else {
        Ok(EventView::Unimplemented)
    }
}

/// Makes the change event of an observed property from its name and value.
pub fn try_convert_property(name: String, id: usize, data: MpvDataType) -> (converted: Result<
    Event,
    Error,
>)
    ensures
        match converted {
            Ok(event) => property_of(name@, data@) == Ok::<PropertyView, ErrorView>(
                event@->property,
            ) && event@ is PropertyChange && event@->id == id,
            Err(error) => property_of(name@, data@) == Err::<PropertyView, ErrorView>(error@),
        },
{
    let property = if text_eq(name.as_str(), "path") {
        match data {
            MpvDataType::String(path) => Property::Path(Some(path)),
            MpvDataType::Null => Property::Path(None),
            _ => {
                return Err(Error(ErrorCode::ValueDoesNotContainString));
            },
        }
    } else if text_eq(name.as_str(), "pause") {
        match data {
            MpvDataType::Bool(paused) => Property::Pause(paused),
            _ => {
                return Err(Error(ErrorCode::ValueDoesNotContainBool));
            },
        }
    } else if text_eq(name.as_str(), "playback-time") {
        match data {
            MpvDataType::Double(time) => Property::PlaybackTime(Some(time)),
            MpvDataType::Null => Property::PlaybackTime(None),
            _ => {
                return Err(Error(ErrorCode::ValueDoesNotContainF64));
            },
        }
    } else if text_eq(name.as_str(), "duration") {
        match data {
            MpvDataType::Double(time) => Property::Duration(Some(time)),
            MpvDataType::Null => Property::Duration(None),
            _ => {
                return Err(Error(ErrorCode::ValueDoesNotContainF64));
            },
        }
    } else if text_eq(name.as_str(), "metadata") {
        match data {
            MpvDataType::HashMap(entries) => Property::Metadata(Some(entries)),
            MpvDataType::Null => Property::Metadata(None),
            _ => {
                return Err(Error(ErrorCode::ValueDoesNotContainHashMap));
            },
        }
    } else {
        Property::Unknown { name, data }
    };
    Ok(Event::PropertyChange { id, property })
}

/// Reads the arguments of a client message: an array of strings.
pub fn decode_strings(items: &Vec<Json>) -> (decoded: Option<Vec<String>>)
    ensures
        match decoded {
            Some(texts) => strings_of(items_view(items@)) == Some(texts_of(texts@)),
            None => strings_of(items_view(items@)) is None,
        },
{
    let mut texts: Vec<String> = Vec::new();
    let mut i: usize = 0;
    while i < items.len()
        invariant
            i <= items.len(),
            texts@.len() == i,
            forall|j: int|
                0 <= j < i ==> (#[trigger] items@[j])@ == JsonView::String(texts@[j]@),
        decreases items.len() - i,
    {
        match &items[i] {
            Json::String(text) => {
                texts.push(text.clone());
            },
            _ => {
                assert(!(items_view(items@)[i as int] is String));
                return None;
            },
        }
        i = i + 1;
    }
    proof {
        let views = items_view(items@);
        assert forall|j: int| 0 <= j < views.len() implies (#[trigger] views[j]) is String by {
            assert(items@[j]@ == JsonView::String(texts@[j]@));
        }
        assert(strings_of(views)->Some_0 =~= texts_of(texts@));
    }
    Some(texts)
}

/// Decodes a notification into the event that it reports.
pub fn decode_event(notification: &Notification) -> (decoded: Result<Event, Error>)
    ensures
        match decoded {
            Ok(event) => event_of(notification@) == Ok::<EventView, ErrorView>(event@),
            Err(error) => event_of(notification@) == Err::<EventView, ErrorView>(error@),
        },
{
    let name = notification.event.as_str();
    if text_eq(name, "shutdown") {
        Ok(Event::Shutdown)
    } else if text_eq(name, "start-file") {
        Ok(Event::StartFile)
    } else if text_eq(name, "file-loaded") {
        Ok(Event::FileLoaded)
    } else if text_eq(name, "seek") {
        Ok(Event::Seek)
    } else if text_eq(name, "playback-restart") {
        Ok(Event::PlaybackRestart)
    } else if text_eq(name, "idle") {
        Ok(Event::Idle)
    } else if text_eq(name, "tick") {
        Ok(Event::Tick)
    } else if text_eq(name, "video-reconfig") {
        Ok(Event::VideoReconfig)
    } else if text_eq(name, "audio-reconfig") {
        Ok(Event::AudioReconfig)
    } else if text_eq(name, "tracks-changed") {
        Ok(Event::TracksChanged)
    } else if text_eq(name, "track-switched") {
        Ok(Event::TrackSwitched)
    } else if text_eq(name, "pause") {
        Ok(Event::Pause)
    } else if text_eq(name, "unpause") {
        Ok(Event::Unpause)
    } else if text_eq(name, "metadata-update") {
        Ok(Event::MetadataUpdate)
    } else if text_eq(name, "chapter-change") {
        Ok(Event::ChapterChange)
    } else if text_eq(name, "end-file") {
        Ok(Event::EndFile)
    } else if text_eq(name, "property-change") {
        decode_property_change(&notification.fields)
    } else if text_eq(name, "client-message") {
        match notification.fields.get("args") {
            Some(Json::Array(items)) => {
                proof {
                    lemma_array_view(*items);
                }
                match decode_strings(items) {
                    Some(args) => Ok(Event::ClientMessage { args }),
                    None => Err(Error(ErrorCode::JsonContainsUnexptectedType)),
                }
            },
            _ => Err(Error(ErrorCode::JsonContainsUnexptectedType)),
        }
    } else {
        Ok(Event::Unimplemented)
    }
}

/// Decodes the fields of a property-change notification.
pub fn decode_property_change(fields: &Json) -> (decoded: Result<Event, Error>)
    ensures
        match decoded {
            Ok(event) => property_change_of(fields@) == Ok::<EventView, ErrorView>(event@),
            Err(error) => property_change_of(fields@) == Err::<EventView, ErrorView>(error@),
        },
{
    let name = match fields.get("name") {
        Some(Json::String(name)) => name.clone(),
        _ => {
            return Err(Error(ErrorCode::JsonContainsUnexptectedType));
        },
    };
    let id: usize = match fields.get("id") {
        Some(Json::Integer(id)) => {
            if 0 <= *id && *id <= usize::MAX as i128 {
                *id as usize
            } else {
                return Err(Error(ErrorCode::ValueDoesNotContainUsize));
            }
        },
        _ => 0,
    };
    let data = match fields.get("data") {
        Some(json) => match json_to_value(json) {
            Ok(value) => value,
            Err(error) => {
                return Err(error);
            },
        },
        None => MpvDataType::Null,
    };
    try_convert_property(name, id, data)
}

} // verus!
