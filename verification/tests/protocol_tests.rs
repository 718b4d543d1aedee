use bucket_streamer::json::JsonValue;
use bucket_streamer::protocol::{
    ClientMessage, Field, FrameRequest, ProtocolError, ServerMessage,
};

#[test]
fn test_set_video_serialization() {
    let msg = ClientMessage::SetVideo {
        path: "videos/test.mp4".to_string(),
    };
    let json = msg.to_json();
    assert!(json.contains(r#""type":"SetVideo""#));
    assert!(json.contains(r#""path":"videos/test.mp4""#));

    let parsed: ClientMessage = ClientMessage::from_json(&json).unwrap();
    assert_eq!(parsed, msg);
}

#[test]
fn test_request_frames_serialization() {
    let msg = ClientMessage::RequestFrames {
        frames: vec![
            FrameRequest {
                offset: 1500,
                irap_offset: 1000,
                index: 0,
            },
            FrameRequest {
                offset: 2100,
                irap_offset: 1000,
                index: 1,
            },
        ],
    };
    let json = msg.to_json();
    assert!(json.contains(r#""type":"RequestFrames""#));

    let parsed: ClientMessage = ClientMessage::from_json(&json).unwrap();
    assert_eq!(parsed, msg);
}

#[test]
fn test_video_set_response() {
    let msg = ServerMessage::VideoSet {
        path: "videos/test.mp4".to_string(),
        ok: true,
    };
    let json = msg.to_json();
    assert!(json.contains(r#""type":"VideoSet""#));
    assert!(json.contains(r#""ok":true"#));
}

#[test]
fn test_frame_response() {
    let msg = ServerMessage::Frame {
        index: 0,
        offset: 1500,
        size: 45230,
    };
    let json = msg.to_json();
    assert!(json.contains(r#""type":"Frame""#));
    assert!(json.contains(r#""size":45230"#));
}

#[test]
fn test_frame_error_response() {
    let msg = ServerMessage::FrameError {
        index: 5,
        offset: 2800,
        error: "decode_failed".to_string(),
    };
    let json = msg.to_json();
    assert!(json.contains(r#""type":"FrameError""#));
    assert!(json.contains(r#""error":"decode_failed""#));
}

#[test]
fn test_parse_invalid_json() {
    let result = ClientMessage::from_json("not json");
    assert!(result.is_err());
}

#[test]
fn test_parse_unknown_type() {
    let result = ClientMessage::from_json(r#"{"type":"Unknown"}"#);
    assert!(result.is_err());
}

#[test]
fn test_exact_wire_text_of_every_server_message() {
    assert_eq!(
        ServerMessage::VideoSet { path: "a/b.mp4".to_string(), ok: false }.to_json(),
        r#"{"type":"VideoSet","path":"a/b.mp4","ok":false}"#
    );
    assert_eq!(
        ServerMessage::Frame { index: 7, offset: 18446744073709551615, size: 4294967295 }.to_json(),
        r#"{"type":"Frame","index":7,"offset":18446744073709551615,"size":4294967295}"#
    );
    assert_eq!(
        ServerMessage::FrameError { index: 0, offset: 0, error: "x".to_string() }.to_json(),
        r#"{"type":"FrameError","index":0,"offset":0,"error":"x"}"#
    );
    assert_eq!(
        ServerMessage::Error { message: "No video set".to_string() }.to_json(),
        r#"{"type":"Error","message":"No video set"}"#
    );
}

#[test]
fn test_exact_wire_text_of_client_messages() {
    assert_eq!(
        ClientMessage::SetVideo { path: "v.mp4".to_string() }.to_json(),
        r#"{"type":"SetVideo","path":"v.mp4"}"#
    );
    assert_eq!(
        ClientMessage::RequestFrames { frames: vec![] }.to_json(),
        r#"{"type":"RequestFrames","frames":[]}"#
    );
    assert_eq!(
        ClientMessage::RequestFrames {
            frames: vec![
                FrameRequest { offset: 10, irap_offset: 5, index: 0 },
                FrameRequest { offset: 20, irap_offset: 5, index: 1 },
                FrameRequest { offset: 30, irap_offset: 30, index: 2 },
            ],
        }
        .to_json(),
        r#"{"type":"RequestFrames","frames":[{"offset":10,"irap_offset":5,"index":0},{"offset":20,"irap_offset":5,"index":1},{"offset":30,"irap_offset":30,"index":2}]}"#
    );
}

#[test]
fn test_strings_are_quoted_and_escaped() {
    let msg = ServerMessage::Error { message: "say \"hi\"\n\\".to_string() };
    let json = msg.to_json();
    assert_eq!(json, r#"{"type":"Error","message":"say \"hi\"\n\\"}"#);
    let back = ServerMessage::from_json(&json).unwrap();
    assert_eq!(back, msg);
}

#[test]
fn test_server_messages_round_trip() {
    let messages = vec![
        ServerMessage::VideoSet { path: "videos/none.mp4".to_string(), ok: false },
        ServerMessage::VideoSet { path: "é/ü.mp4".to_string(), ok: true },
        ServerMessage::Frame { index: 3, offset: 99999999, size: 12 },
        ServerMessage::FrameError { index: 7, offset: 99999999, error: "FrameNotFound".to_string() },
        ServerMessage::Error { message: "".to_string() },
    ];
    for msg in messages {
        assert_eq!(ServerMessage::from_json(&msg.to_json()).unwrap(), msg);
    }
}

#[test]
fn test_members_are_read_in_any_order_and_unknown_ones_ignored() {
    let parsed = ClientMessage::from_json(r#"{"path":"p","extra":[1,2],"type":"SetVideo"}"#).unwrap();
    assert_eq!(parsed, ClientMessage::SetVideo { path: "p".to_string() });
    let parsed = ClientMessage::from_json(
        r#"{"frames":[{"index":4,"note":null,"irap_offset":1,"offset":2}],"type":"RequestFrames"}"#,
    )
    .unwrap();
    assert_eq!(
        parsed,
        ClientMessage::RequestFrames { frames: vec![FrameRequest { offset: 2, irap_offset: 1, index: 4 }] }
    );
}

#[test]
fn test_each_protocol_error() {
    assert!(matches!(ClientMessage::from_json("{"), Err(ProtocolError::Syntax(_))));
    assert_eq!(ClientMessage::from_json("[]"), Err(ProtocolError::NotAnObject));
    assert_eq!(ClientMessage::from_json("{}"), Err(ProtocolError::MissingField(Field::Type)));
    assert_eq!(
        ClientMessage::from_json(r#"{"type":5}"#),
        Err(ProtocolError::InvalidField(Field::Type))
    );
    assert_eq!(
        ClientMessage::from_json(r#"{"type":"Unknown"}"#),
        Err(ProtocolError::UnknownType("Unknown".to_string()))
    );
    assert_eq!(
        ClientMessage::from_json(r#"{"type":"SetVideo"}"#),
        Err(ProtocolError::MissingField(Field::Path))
    );
    assert_eq!(
        ClientMessage::from_json(r#"{"type":"SetVideo","path":1}"#),
        Err(ProtocolError::InvalidField(Field::Path))
    );
    assert_eq!(
        ClientMessage::from_json(r#"{"type":"RequestFrames"}"#),
        Err(ProtocolError::MissingField(Field::Frames))
    );
    assert_eq!(
        ClientMessage::from_json(r#"{"type":"RequestFrames","frames":{}}"#),
        Err(ProtocolError::InvalidField(Field::Frames))
    );
    assert_eq!(
        ClientMessage::from_json(r#"{"type":"RequestFrames","frames":[1]}"#),
        Err(ProtocolError::NotAnObject)
    );
    assert_eq!(
        ClientMessage::from_json(r#"{"type":"RequestFrames","frames":[{"offset":1,"irap_offset":1}]}"#),
        Err(ProtocolError::MissingField(Field::Index))
    );
}

#[test]
fn test_numbers_out_of_range_are_refused() {
    // index is a 32-bit number
    assert_eq!(
        ClientMessage::from_json(
            r#"{"type":"RequestFrames","frames":[{"offset":1,"irap_offset":1,"index":4294967296}]}"#
        ),
        Err(ProtocolError::InvalidField(Field::Index))
    );
    assert!(ClientMessage::from_json(
        r#"{"type":"RequestFrames","frames":[{"offset":1,"irap_offset":1,"index":4294967295}]}"#
    )
    .is_ok());
    // negative and fractional numbers are no offsets
    assert_eq!(
        ClientMessage::from_json(
            r#"{"type":"RequestFrames","frames":[{"offset":-1,"irap_offset":1,"index":0}]}"#
        ),
        Err(ProtocolError::InvalidField(Field::Offset))
    );
    assert_eq!(
        ClientMessage::from_json(
            r#"{"type":"RequestFrames","frames":[{"offset":1,"irap_offset":1.5,"index":0}]}"#
        ),
        Err(ProtocolError::InvalidField(Field::IrapOffset))
    );
    // the first element that fails decides the error
    assert_eq!(
        ClientMessage::from_json(
            r#"{"type":"RequestFrames","frames":[{"offset":1,"irap_offset":1,"index":0},{"offset":"x","irap_offset":1,"index":0},7]}"#
        ),
        Err(ProtocolError::InvalidField(Field::Offset))
    );
}

#[test]
fn test_protocol_error_messages() {
    assert_eq!(ProtocolError::NotAnObject.message(), "expected a JSON object");
    assert_eq!(ProtocolError::MissingField(Field::Path).message(), "missing field `path`");
    assert_eq!(
        ProtocolError::InvalidField(Field::IrapOffset).message(),
        "invalid value for field `irap_offset`"
    );
    assert_eq!(
        ProtocolError::UnknownType("Nope".to_string()).message(),
        "unknown message type `Nope`"
    );
    match ClientMessage::from_json("not json") {
        Err(error) => assert_eq!(error.message(), "expected ident at line 1 column 2"),
        Ok(_) => panic!("not json was read as a message"),
    }
}

#[test]
fn test_json_documents_are_read_as_trees() {
    let doc = JsonValue::parse(r#"{"b":[true,null,"s",18446744073709551615,-3,2.5],"a":{}}"#).unwrap();
    assert_eq!(
        doc.member("b"),
        Some(&JsonValue::Array(vec![
            JsonValue::Bool(true),
            JsonValue::Null,
            JsonValue::Text("s".to_string()),
            JsonValue::Unsigned(18446744073709551615),
            JsonValue::OtherNumber,
            JsonValue::OtherNumber,
        ]))
    );
    assert_eq!(doc.member("a"), Some(&JsonValue::Object(vec![])));
    assert_eq!(doc.member("c"), None);
    assert_eq!(JsonValue::Null.member("a"), None);
    assert!(JsonValue::parse("").is_err());
}

#[test]
fn test_json_value_accessors() {
    assert_eq!(JsonValue::Text("t".to_string()).as_text(), Some(&"t".to_string()));
    assert_eq!(JsonValue::Unsigned(3).as_text(), None);
    assert_eq!(JsonValue::Unsigned(3).as_unsigned(), Some(3));
    assert_eq!(JsonValue::OtherNumber.as_unsigned(), None);
    assert_eq!(JsonValue::Bool(false).as_bool(), Some(false));
    assert_eq!(JsonValue::Null.as_bool(), None);
    assert_eq!(JsonValue::Array(vec![JsonValue::Null]).as_array(), Some(&vec![JsonValue::Null]));
    assert_eq!(JsonValue::Null.as_array(), None);
    // the first member under a key is the one found
    let doc = JsonValue::Object(vec![
        ("k".to_string(), JsonValue::Unsigned(1)),
        ("k".to_string(), JsonValue::Unsigned(2)),
    ]);
    assert_eq!(doc.member("k"), Some(&JsonValue::Unsigned(1)));
}

#[test]
fn test_messages_decode_from_hand_built_documents() {
    let doc = JsonValue::Object(vec![
        ("type".to_string(), JsonValue::Text("Frame".to_string())),
        ("index".to_string(), JsonValue::Unsigned(1)),
        ("offset".to_string(), JsonValue::Unsigned(2)),
        ("size".to_string(), JsonValue::Unsigned(3)),
    ]);
    assert_eq!(ServerMessage::from_value(&doc), Ok(ServerMessage::Frame { index: 1, offset: 2, size: 3 }));
    assert_eq!(ClientMessage::from_value(&doc), Err(ProtocolError::UnknownType("Frame".to_string())));
    let request = JsonValue::Object(vec![
        ("offset".to_string(), JsonValue::Unsigned(9)),
        ("irap_offset".to_string(), JsonValue::Unsigned(8)),
        ("index".to_string(), JsonValue::Unsigned(7)),
    ]);
    assert_eq!(FrameRequest::from_value(&request), Ok(FrameRequest { offset: 9, irap_offset: 8, index: 7 }));
}

#[test]
fn test_decimal_rendering() {
    let mut out = String::new();
    bucket_streamer::json::push_decimal(&mut out, 0);
    out.push(' ');
    bucket_streamer::json::push_decimal(&mut out, 9);
    out.push(' ');
    bucket_streamer::json::push_decimal(&mut out, 10);
    out.push(' ');
    bucket_streamer::json::push_decimal(&mut out, 1234567890);
    out.push(' ');
    bucket_streamer::json::push_signed_decimal(&mut out, -22);
    out.push(' ');
    bucket_streamer::json::push_signed_decimal(&mut out, i64::MIN);
    out.push(' ');
    bucket_streamer::json::push_signed_decimal(&mut out, 5);
    assert_eq!(out, "0 9 10 1234567890 -22 -9223372036854775808 5");
}
