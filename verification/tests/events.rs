use mpvipc::event::{decode_event, decode_property_change, decode_strings, try_convert_property};
use mpvipc::frame::{read_frame, Frame, Notification};
use mpvipc::wire::parse_json;
use mpvipc::{Error, ErrorCode, Event, Json, MpvDataType, Property};

fn text(s: &str) -> String {
    s.to_string()
}

fn notification(line: &str) -> Notification {
    match read_frame(line) {
        Ok(Frame::Notification(n)) => n,
        other => panic!("{:?}", other),
    }
}

fn event(line: &str) -> Result<Event, Error> {
    decode_event(&notification(line))
}

#[test]
fn decodes_events_of_the_vocabulary() {
    let cases = vec![
        ("shutdown", Event::Shutdown),
        ("start-file", Event::StartFile),
        ("end-file", Event::EndFile),
        ("file-loaded", Event::FileLoaded),
        ("tracks-changed", Event::TracksChanged),
        ("track-switched", Event::TrackSwitched),
        ("idle", Event::Idle),
        ("pause", Event::Pause),
        ("unpause", Event::Unpause),
        ("tick", Event::Tick),
        ("video-reconfig", Event::VideoReconfig),
        ("audio-reconfig", Event::AudioReconfig),
        ("metadata-update", Event::MetadataUpdate),
        ("seek", Event::Seek),
        ("playback-restart", Event::PlaybackRestart),
        ("chapter-change", Event::ChapterChange),
    ];
    for (name, expected) in cases {
        let line = format!("{{\"event\":\"{}\"}}", name);
        assert_eq!(event(&line), Ok(expected));
    }
}

#[test]
fn an_unknown_event_is_unimplemented() {
    assert_eq!(event("{\"event\":\"some-future-event\",\"x\":1}"), Ok(Event::Unimplemented));
    assert_eq!(event("{\"event\":\"\"}"), Ok(Event::Unimplemented));
    assert_eq!(event("{\"event\":\"Shutdown\"}"), Ok(Event::Unimplemented));
}

#[test]
fn extra_fields_do_not_disturb_an_event() {
    assert_eq!(
        event("{\"event\":\"end-file\",\"reason\":\"eof\",\"playlist_entry_id\":-1}"),
        Ok(Event::EndFile)
    );
}

#[test]
fn decodes_a_pause_change() {
    assert_eq!(
        event("{\"event\":\"property-change\",\"id\":3,\"name\":\"pause\",\"data\":true}"),
        Ok(Event::PropertyChange { id: 3, property: Property::Pause(true) })
    );
}

#[test]
fn decodes_changes_of_each_known_property() {
    assert_eq!(
        event("{\"event\":\"property-change\",\"id\":1,\"name\":\"path\",\"data\":\"/a\"}"),
        Ok(Event::PropertyChange { id: 1, property: Property::Path(Some(text("/a"))) })
    );
    assert_eq!(
        event("{\"event\":\"property-change\",\"id\":1,\"name\":\"path\",\"data\":null}"),
        Ok(Event::PropertyChange { id: 1, property: Property::Path(None) })
    );
    assert_eq!(
        event("{\"event\":\"property-change\",\"id\":1,\"name\":\"path\"}"),
        Ok(Event::PropertyChange { id: 1, property: Property::Path(None) })
    );
    assert_eq!(
        event("{\"event\":\"property-change\",\"id\":2,\"name\":\"playback-time\",\"data\":1.25}"),
        Ok(Event::PropertyChange { id: 2, property: Property::PlaybackTime(Some(text("1.25"))) })
    );
    assert_eq!(
        event("{\"event\":\"property-change\",\"id\":2,\"name\":\"playback-time\"}"),
        Ok(Event::PropertyChange { id: 2, property: Property::PlaybackTime(None) })
    );
    assert_eq!(
        event("{\"event\":\"property-change\",\"id\":2,\"name\":\"duration\",\"data\":100.5}"),
        Ok(Event::PropertyChange { id: 2, property: Property::Duration(Some(text("100.5"))) })
    );
    assert_eq!(
        event("{\"event\":\"property-change\",\"id\":2,\"name\":\"duration\",\"data\":null}"),
        Ok(Event::PropertyChange { id: 2, property: Property::Duration(None) })
    );
    assert_eq!(
        event(
            "{\"event\":\"property-change\",\"id\":4,\"name\":\"metadata\",\"data\":{\"artist\":\"x\"}}"
        ),
        Ok(Event::PropertyChange {
            id: 4,
            property: Property::Metadata(Some(vec![(
                text("artist"),
                MpvDataType::String(text("x"))
            )]))
        })
    );
    assert_eq!(
        event("{\"event\":\"property-change\",\"id\":4,\"name\":\"metadata\"}"),
        Ok(Event::PropertyChange { id: 4, property: Property::Metadata(None) })
    );
}

#[test]
fn an_unknown_property_is_kept_with_its_value() {
    assert_eq!(
        event("{\"event\":\"property-change\",\"id\":5,\"name\":\"volume\",\"data\":55.5}"),
        Ok(Event::PropertyChange {
            id: 5,
            property: Property::Unknown {
                name: text("volume"),
                data: MpvDataType::Double(text("55.5"))
            }
        })
    );
    assert_eq!(
        event("{\"event\":\"property-change\",\"name\":\"playlist-pos\",\"data\":2}"),
        Ok(Event::PropertyChange {
            id: 0,
            property: Property::Unknown {
                name: text("playlist-pos"),
                data: MpvDataType::Usize(2)
            }
        })
    );
}

#[test]
fn a_known_property_of_the_wrong_kind_is_refused() {
    let cases = vec![
        ("path", "5", ErrorCode::ValueDoesNotContainString),
        ("pause", "\"yes\"", ErrorCode::ValueDoesNotContainBool),
        ("pause", "1", ErrorCode::ValueDoesNotContainBool),
        ("pause", "null", ErrorCode::ValueDoesNotContainBool),
        ("playback-time", "\"1.0\"", ErrorCode::ValueDoesNotContainF64),
        ("playback-time", "5", ErrorCode::ValueDoesNotContainF64),
        ("duration", "true", ErrorCode::ValueDoesNotContainF64),
        ("metadata", "[]", ErrorCode::ValueDoesNotContainHashMap),
    ];
    for (name, data, code) in cases {
        let line = format!(
            "{{\"event\":\"property-change\",\"id\":1,\"name\":\"{}\",\"data\":{}}}",
            name, data
        );
        assert_eq!(event(&line), Err(Error(code)));
    }
}

#[test]
fn a_change_without_a_name_is_refused() {
    let unexpected = Err(Error(ErrorCode::JsonContainsUnexptectedType));
    assert_eq!(event("{\"event\":\"property-change\",\"id\":1,\"data\":true}"), unexpected);
    assert_eq!(event("{\"event\":\"property-change\",\"id\":1,\"name\":7}"), unexpected);
}

#[test]
fn an_identifier_that_is_no_integer_counts_as_zero() {
    assert_eq!(
        event("{\"event\":\"property-change\",\"id\":\"x\",\"name\":\"pause\",\"data\":false}"),
        Ok(Event::PropertyChange { id: 0, property: Property::Pause(false) })
    );
}

#[test]
fn an_identifier_outside_usize_is_refused() {
    assert_eq!(
        event("{\"event\":\"property-change\",\"id\":-4,\"name\":\"pause\",\"data\":false}"),
        Err(Error(ErrorCode::ValueDoesNotContainUsize))
    );
}

#[test]
fn a_change_with_an_unsupported_value_is_refused() {
    assert_eq!(
        event("{\"event\":\"property-change\",\"id\":1,\"name\":\"volume\",\"data\":-3}"),
        Err(Error(ErrorCode::UnsupportedType))
    );
}

#[test]
fn decodes_a_client_message() {
    assert_eq!(
        event("{\"event\":\"client-message\",\"args\":[\"a\",\"b c\"]}"),
        Ok(Event::ClientMessage { args: vec![text("a"), text("b c")] })
    );
    assert_eq!(
        event("{\"event\":\"client-message\",\"args\":[]}"),
        Ok(Event::ClientMessage { args: vec![] })
    );
}

#[test]
fn a_client_message_must_carry_strings() {
    let unexpected = Err(Error(ErrorCode::JsonContainsUnexptectedType));
    assert_eq!(event("{\"event\":\"client-message\"}"), unexpected);
    assert_eq!(event("{\"event\":\"client-message\",\"args\":\"a\"}"), unexpected);
    assert_eq!(event("{\"event\":\"client-message\",\"args\":[\"a\",1]}"), unexpected);
}

#[test]
fn reads_strings_from_a_run_of_values() {
    assert_eq!(
        decode_strings(&vec![Json::String(text("a")), Json::String(text("b"))]),
        Some(vec![text("a"), text("b")])
    );
    assert_eq!(decode_strings(&vec![Json::String(text("a")), Json::Null]), None);
    assert_eq!(decode_strings(&vec![]), Some(vec![]));
}

#[test]
fn converts_a_property_by_its_name() {
    assert_eq!(
        try_convert_property(text("pause"), 9, MpvDataType::Bool(true)),
        Ok(Event::PropertyChange { id: 9, property: Property::Pause(true) })
    );
    assert_eq!(
        try_convert_property(text("pause"), 9, MpvDataType::Usize(1)),
        Err(Error(ErrorCode::ValueDoesNotContainBool))
    );
    assert_eq!(
        try_convert_property(text("sub-text"), 2, MpvDataType::Null),
        Ok(Event::PropertyChange {
            id: 2,
            property: Property::Unknown { name: text("sub-text"), data: MpvDataType::Null }
        })
    );
}

#[test]
fn decodes_the_fields_of_a_property_change() {
    let fields = parse_json("{\"name\":\"pause\",\"id\":2,\"data\":false}").unwrap();
    assert_eq!(
        decode_property_change(&fields),
        Ok(Event::PropertyChange { id: 2, property: Property::Pause(false) })
    );
    assert_eq!(
        decode_property_change(&Json::Null),
        Err(Error(ErrorCode::JsonContainsUnexptectedType))
    );
}
