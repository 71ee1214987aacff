use mpvipc::decode::{
    decode_bool, decode_double, decode_entry, decode_map, decode_playlist, decode_string,
    decode_usize, encode_bool, encode_double, encode_string, encode_usize, property_text,
};
use mpvipc::value::{has_entry, json_to_value};
use mpvipc::wire::parse_json;
use mpvipc::{Error, ErrorCode, Json, MpvDataType, Playlist, PlaylistEntry};

fn text(s: &str) -> String {
    s.to_string()
}

fn object(members: Vec<(&str, Json)>) -> Json {
    Json::Object(members.into_iter().map(|(k, v)| (k.to_string(), v)).collect())
}

fn fails<T: std::fmt::Debug>(result: Result<T, Error>, code: ErrorCode) {
    match result {
        Err(Error(found)) => assert_eq!(found, code),
        Ok(value) => panic!("{:?}", value),
    }
}

#[test]
fn decodes_each_kind_from_its_own_variant() {
    assert_eq!(decode_bool(&Json::Bool(false)), Ok(false));
    assert_eq!(decode_bool(&Json::Bool(true)), Ok(true));
    assert_eq!(decode_string(&Json::String(text("x"))), Ok(text("x")));
    assert_eq!(decode_double(&Json::Real(text("12.5"))), Ok(text("12.5")));
    assert_eq!(decode_usize(&Json::Integer(0)), Ok(0));
    assert_eq!(decode_usize(&Json::Integer(usize::MAX as i128)), Ok(usize::MAX));
}

#[test]
fn never_coerces_between_kinds() {
    fails(decode_string(&Json::Bool(true)), ErrorCode::ValueDoesNotContainString);
    fails(decode_bool(&Json::String(text("true"))), ErrorCode::ValueDoesNotContainBool);
    fails(decode_bool(&Json::Integer(1)), ErrorCode::ValueDoesNotContainBool);
    fails(decode_bool(&Json::Integer(0)), ErrorCode::ValueDoesNotContainBool);
    fails(decode_bool(&Json::Null), ErrorCode::ValueDoesNotContainBool);
    fails(decode_string(&Json::Integer(1)), ErrorCode::ValueDoesNotContainString);
    fails(decode_string(&Json::Null), ErrorCode::ValueDoesNotContainString);
    fails(decode_double(&Json::Integer(1)), ErrorCode::ValueDoesNotContainF64);
    fails(decode_double(&Json::String(text("1.5"))), ErrorCode::ValueDoesNotContainF64);
    fails(decode_usize(&Json::Real(text("1.0"))), ErrorCode::ValueDoesNotContainUsize);
    fails(decode_usize(&Json::String(text("1"))), ErrorCode::ValueDoesNotContainUsize);
    fails(decode_map(&Json::Array(vec![])), ErrorCode::ValueDoesNotContainHashMap);
    fails(decode_playlist(&object(vec![])), ErrorCode::ValueDoesNotContainPlaylist);
}

#[test]
fn refuses_integers_outside_usize() {
    fails(decode_usize(&Json::Integer(-1)), ErrorCode::ValueDoesNotContainUsize);
    fails(
        decode_usize(&Json::Integer(usize::MAX as i128 + 1)),
        ErrorCode::ValueDoesNotContainUsize,
    );
}

#[test]
fn what_was_encoded_decodes_to_itself() {
    assert_eq!(decode_bool(&encode_bool(true)), Ok(true));
    assert_eq!(decode_bool(&encode_bool(false)), Ok(false));
    assert_eq!(decode_string(&encode_string("media title")), Ok(text("media title")));
    assert_eq!(decode_usize(&encode_usize(17)), Ok(17));
    assert_eq!(decode_double(&encode_double("0.5")), Ok(text("0.5")));
}

#[test]
fn decodes_untyped_values() {
    assert_eq!(json_to_value(&Json::Null), Ok(MpvDataType::Null));
    assert_eq!(json_to_value(&Json::Bool(true)), Ok(MpvDataType::Bool(true)));
    assert_eq!(json_to_value(&Json::Integer(5)), Ok(MpvDataType::Usize(5)));
    assert_eq!(json_to_value(&Json::Real(text("2.5"))), Ok(MpvDataType::Double(text("2.5"))));
    assert_eq!(json_to_value(&Json::String(text("s"))), Ok(MpvDataType::String(text("s"))));
    assert_eq!(
        json_to_value(&Json::Array(vec![Json::Integer(1), Json::Null])),
        Ok(MpvDataType::Array(vec![MpvDataType::Usize(1), MpvDataType::Null]))
    );
    assert_eq!(json_to_value(&Json::Array(vec![])), Ok(MpvDataType::Array(vec![])));
}

#[test]
fn refuses_untyped_values_with_an_integer_outside_usize() {
    fails(json_to_value(&Json::Integer(-1)), ErrorCode::UnsupportedType);
    fails(json_to_value(&Json::Integer(usize::MAX as i128 + 1)), ErrorCode::UnsupportedType);
    fails(
        json_to_value(&Json::Array(vec![Json::Integer(1), Json::Integer(-1)])),
        ErrorCode::UnsupportedType,
    );
    fails(
        json_to_value(&object(vec![("a", Json::Array(vec![Json::Integer(-1)]))])),
        ErrorCode::UnsupportedType,
    );
}

#[test]
fn decodes_nested_maps() {
    let json = parse_json("{\"title\":\"t\",\"tags\":{\"year\":1999,\"live\":true}}").unwrap();
    let decoded = decode_map(&json).unwrap();
    assert_eq!(decoded.len(), 2);
    assert!(has_entry(&decoded, "title"));
    assert!(has_entry(&decoded, "tags"));
    assert!(!has_entry(&decoded, "year"));
    let mut sorted = decoded;
    sorted.sort_by(|a, b| a.0.cmp(&b.0));
    assert_eq!(sorted[1], (text("title"), MpvDataType::String(text("t"))));
    match &sorted[0] {
        (key, MpvDataType::HashMap(inner)) => {
            assert_eq!(key, "tags");
            let mut inner: Vec<_> = inner.iter().collect();
            inner.sort_by(|a, b| a.0.cmp(&b.0));
            assert_eq!(inner[0], &(text("live"), MpvDataType::Bool(true)));
            assert_eq!(inner[1], &(text("year"), MpvDataType::Usize(1999)));
        }
        other => panic!("{:?}", other),
    }
}

#[test]
fn a_decoded_map_holds_each_key_once_with_the_last_value() {
    let json = object(vec![
        ("a", Json::Integer(1)),
        ("b", Json::Integer(2)),
        ("a", Json::Integer(3)),
    ]);
    let mut decoded = decode_map(&json).unwrap();
    decoded.sort_by(|a, b| a.0.cmp(&b.0));
    assert_eq!(
        decoded,
        vec![(text("a"), MpvDataType::Usize(3)), (text("b"), MpvDataType::Usize(2))]
    );
}

#[test]
fn an_overridden_member_does_not_spoil_a_map() {
    let json = object(vec![("a", Json::Integer(-1)), ("a", Json::Integer(3))]);
    assert_eq!(decode_map(&json), Ok(vec![(text("a"), MpvDataType::Usize(3))]));
    let json = object(vec![("a", Json::Integer(3)), ("a", Json::Integer(-1))]);
    fails(decode_map(&json), ErrorCode::UnsupportedType);
}

#[test]
fn decodes_an_empty_map() {
    assert_eq!(decode_map(&object(vec![])), Ok(vec![]));
}

#[test]
fn decodes_a_playlist() {
    let json = parse_json(
        "[{\"filename\":\"a.mp3\",\"current\":true,\"playing\":true,\"title\":\"A\"},{\"filename\":\"b.mp3\"}]",
    )
    .unwrap();
    assert_eq!(
        decode_playlist(&json),
        Ok(Playlist(vec![
            PlaylistEntry {
                id: 0,
                filename: text("a.mp3"),
                title: Some(text("A")),
                current: true
            },
            PlaylistEntry { id: 1, filename: text("b.mp3"), title: None, current: false },
        ]))
    );
}

#[test]
fn decodes_an_empty_playlist() {
    assert_eq!(decode_playlist(&Json::Array(vec![])), Ok(Playlist(vec![])));
}

#[test]
fn an_entry_without_title_decodes() {
    let json = Json::Array(vec![object(vec![
        ("id", Json::Integer(1)),
        ("filename", Json::String(text("a.mkv"))),
        ("current", Json::Bool(false)),
    ])]);
    assert_eq!(
        decode_playlist(&json),
        Ok(Playlist(vec![PlaylistEntry {
            id: 0,
            filename: text("a.mkv"),
            title: None,
            current: false
        }]))
    );
}

#[test]
fn an_entry_without_filename_fails_the_whole_playlist() {
    let json = Json::Array(vec![
        object(vec![("filename", Json::String(text("a.mkv")))]),
        object(vec![("title", Json::String(text("B"))), ("current", Json::Bool(true))]),
        object(vec![("filename", Json::String(text("c.mkv")))]),
    ]);
    fails(decode_playlist(&json), ErrorCode::MissingValue);
    let json = Json::Array(vec![object(vec![("filename", Json::Integer(5))])]);
    fails(decode_playlist(&json), ErrorCode::MissingValue);
}

#[test]
fn an_item_that_is_no_object_is_no_entry() {
    let json = Json::Array(vec![Json::String(text("a.mkv"))]);
    fails(decode_playlist(&json), ErrorCode::ValueDoesNotContainPlaylist);
    fails(decode_entry(&Json::Null, 0), ErrorCode::ValueDoesNotContainPlaylist);
}

#[test]
fn the_first_bad_entry_decides_the_error() {
    let json = Json::Array(vec![object(vec![]), Json::Null]);
    fails(decode_playlist(&json), ErrorCode::MissingValue);
    let json = Json::Array(vec![Json::Null, object(vec![])]);
    fails(decode_playlist(&json), ErrorCode::ValueDoesNotContainPlaylist);
}

#[test]
fn an_entry_takes_its_position_as_given() {
    let json = object(vec![("filename", Json::String(text("f"))), ("title", Json::Integer(1))]);
    assert_eq!(
        decode_entry(&json, 41),
        Ok(PlaylistEntry { id: 41, filename: text("f"), title: None, current: false })
    );
}

#[test]
fn renders_values_as_plain_text() {
    assert_eq!(property_text(&Json::Bool(false)), Ok(text("false")));
    assert_eq!(property_text(&Json::Bool(true)), Ok(text("true")));
    assert_eq!(property_text(&Json::Integer(120)), Ok(text("120")));
    assert_eq!(property_text(&Json::Integer(-120)), Ok(text("-120")));
    assert_eq!(property_text(&Json::Real(text("1.5"))), Ok(text("1.5")));
    assert_eq!(property_text(&Json::String(text("inf"))), Ok(text("inf")));
    assert_eq!(
        property_text(&Json::Array(vec![Json::Integer(1), Json::String(text("a"))])),
        Ok(text("[1,\"a\"]"))
    );
    assert_eq!(property_text(&object(vec![("k", Json::Null)])), Ok(text("{\"k\":null}")));
    fails(property_text(&Json::Null), ErrorCode::MissingValue);
    fails(property_text(&Json::Array(vec![Json::Real(text("?"))])), ErrorCode::UnsupportedType);
}
