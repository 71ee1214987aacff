use mpvipc::frame::{classify, encode_request, read_frame, take_member, Frame, Notification};
use mpvipc::wire::parse_json;
use mpvipc::{Error, ErrorCode, Json};

fn text(s: &str) -> String {
    s.to_string()
}

fn object(members: Vec<(&str, Json)>) -> Json {
    Json::Object(members.into_iter().map(|(k, v)| (k.to_string(), v)).collect())
}

#[test]
fn reads_a_successful_reply() {
    assert_eq!(
        read_frame("{\"error\":\"success\",\"data\":false,\"request_id\":7}"),
        Ok(Frame::Reply { error: text("success"), data: Some(Json::Bool(false)), request_id: 7 })
    );
}

#[test]
fn reads_a_reply_without_payload() {
    assert_eq!(
        read_frame("{\"error\":\"success\",\"request_id\":1}\n"),
        Ok(Frame::Reply { error: text("success"), data: None, request_id: 1 })
    );
}

#[test]
fn reads_a_reply_with_null_payload() {
    assert_eq!(
        read_frame("{\"error\":\"property not found\",\"data\":null,\"request_id\":9}"),
        Ok(Frame::Reply {
            error: text("property not found"),
            data: Some(Json::Null),
            request_id: 9
        })
    );
}

#[test]
fn reads_a_notification_with_its_fields() {
    let line = "{\"event\":\"property-change\",\"id\":3,\"name\":\"pause\",\"data\":true}";
    let fields = parse_json(line).unwrap();
    assert_eq!(
        read_frame(line),
        Ok(Frame::Notification(Notification { event: text("property-change"), fields }))
    );
}

#[test]
fn an_event_name_makes_a_notification_even_beside_an_error() {
    let json = object(vec![
        ("event", Json::String(text("idle"))),
        ("error", Json::String(text("success"))),
        ("request_id", Json::Integer(1)),
    ]);
    assert!(matches!(classify(json), Ok(Frame::Notification(_))));
}

#[test]
fn refuses_a_line_that_is_no_json() {
    assert!(matches!(read_frame("{\"event\":"), Err(Error(ErrorCode::JsonParseError(_)))));
    assert!(matches!(read_frame(""), Err(Error(ErrorCode::JsonParseError(_)))));
}

#[test]
fn refuses_json_that_is_no_record() {
    let unexpected = Err(Error(ErrorCode::UnexpectedValue));
    assert_eq!(read_frame("[]"), unexpected);
    assert_eq!(read_frame("true"), unexpected);
    assert_eq!(read_frame("{}"), unexpected);
    assert_eq!(read_frame("{\"event\":5}"), unexpected);
    assert_eq!(read_frame("{\"error\":\"success\"}"), unexpected);
    assert_eq!(read_frame("{\"request_id\":1}"), unexpected);
    assert_eq!(read_frame("{\"error\":5,\"request_id\":1}"), unexpected);
    assert_eq!(read_frame("{\"error\":\"success\",\"request_id\":\"1\"}"), unexpected);
    assert_eq!(read_frame("{\"error\":\"success\",\"request_id\":-1}"), unexpected);
    assert_eq!(read_frame("{\"error\":\"success\",\"request_id\":1.5}"), unexpected);
}

#[test]
fn accepts_the_largest_identifier() {
    assert_eq!(
        read_frame("{\"error\":\"success\",\"request_id\":18446744073709551615}"),
        Ok(Frame::Reply { error: text("success"), data: None, request_id: u64::MAX })
    );
    let beyond = object(vec![
        ("error", Json::String(text("success"))),
        ("request_id", Json::Integer(u64::MAX as i128 + 1)),
    ]);
    assert_eq!(classify(beyond), Err(Error(ErrorCode::UnexpectedValue)));
}

#[test]
fn takes_the_last_member_with_a_key() {
    let members = vec![
        (text("data"), Json::Integer(1)),
        (text("other"), Json::Integer(2)),
        (text("data"), Json::Integer(3)),
        (text("more"), Json::Integer(4)),
    ];
    assert_eq!(take_member(members, "data"), Some(Json::Integer(3)));
    assert_eq!(take_member(vec![(text("a"), Json::Null)], "data"), None);
    assert_eq!(take_member(vec![], "data"), None);
}

#[test]
fn writes_a_request_as_one_line() {
    let command = vec![Json::String(text("get_property")), Json::String(text("pause"))];
    assert_eq!(
        encode_request(command, 7),
        Ok(text("{\"command\":[\"get_property\",\"pause\"],\"request_id\":7}\n"))
    );
}

#[test]
fn writes_values_of_every_scalar_kind() {
    let command = vec![
        Json::String(text("set_property")),
        Json::String(text("a \"b\"")),
        Json::Bool(true),
        Json::Integer(-3),
        Json::Real(text("1.5")),
        Json::Null,
    ];
    assert_eq!(
        encode_request(command, u64::MAX),
        Ok(text(
            "{\"command\":[\"set_property\",\"a \\\"b\\\"\",true,-3,1.5,null],\"request_id\":18446744073709551615}\n"
        ))
    );
}

#[test]
fn writes_an_empty_command() {
    assert_eq!(encode_request(vec![], 1), Ok(text("{\"command\":[],\"request_id\":1}\n")));
}

#[test]
fn refuses_a_request_that_cannot_be_written() {
    let command = vec![Json::String(text("set_property")), Json::Real(text("fast"))];
    assert_eq!(encode_request(command, 1), Err(Error(ErrorCode::UnsupportedType)));
}

#[test]
fn a_written_request_reads_back_as_json() {
    let command = vec![Json::String(text("seek")), Json::String(text("12.5"))];
    let line = encode_request(command, 4).unwrap();
    assert_eq!(
        parse_json(&line),
        Ok(object(vec![
            (
                "command",
                Json::Array(vec![Json::String(text("seek")), Json::String(text("12.5"))])
            ),
            ("request_id", Json::Integer(4)),
        ]))
    );
}
