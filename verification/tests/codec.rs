use launch_core::codec::{
    decode_client_message, decode_server_message, encode_client_message, encode_server_message,
    read_client_message, read_server_message,
};
use launch_core::message::{
    AuthMessage, AuthResponse, ClientMessage, Error, ProfileResourcesMessage,
    ProfileResourcesResponse, ProfileSummary, ProfilesMessage, ProfilesResponse, ServerMessage,
};

fn auth(login: &str, password: &str) -> ClientMessage {
    ClientMessage::Auth(AuthMessage { login: login.to_string(), password: password.to_string() })
}

fn same_request(a: &ClientMessage, b: &ClientMessage) -> bool {
    match (a, b) {
        (ClientMessage::Auth(x), ClientMessage::Auth(y)) => {
            x.login == y.login && x.password == y.password
        }
        (ClientMessage::Profiles(_), ClientMessage::Profiles(_)) => true,
        (ClientMessage::ProfileResources(x), ClientMessage::ProfileResources(y)) => {
            x.profile == y.profile
        }
        _ => false,
    }
}

fn same_answer(a: &ServerMessage, b: &ServerMessage) -> bool {
    match (a, b) {
        (ServerMessage::Auth(x), ServerMessage::Auth(y)) => {
            x.uuid == y.uuid && x.access_token == y.access_token
        }
        (ServerMessage::Profiles(x), ServerMessage::Profiles(y)) => {
            x.profiles.len() == y.profiles.len()
                && x.profiles.iter().zip(y.profiles.iter()).all(|(p, q)| {
                    p.name == q.name && p.version == q.version && p.optionals == q.optionals
                })
        }
        (ServerMessage::ProfileResources(x), ServerMessage::ProfileResources(y)) => x.list == y.list,
        (ServerMessage::Error(x), ServerMessage::Error(y)) => x.msg == y.msg,
        _ => false,
    }
}

#[test]
fn requests_have_their_frames() {
    assert_eq!(
        encode_client_message(&auth("Test", "test")),
        "{\"login\":\"Test\",\"password\":\"test\",\"type\":\"auth\"}"
    );
    assert_eq!(
        encode_client_message(&ClientMessage::Profiles(ProfilesMessage {})),
        "{\"type\":\"profiles\"}"
    );
    assert_eq!(
        encode_client_message(&ClientMessage::ProfileResources(ProfileResourcesMessage {
            profile: "main".to_string()
        })),
        "{\"profile\":\"main\",\"type\":\"profileResources\"}"
    );
}

#[test]
fn answers_have_their_frames() {
    assert_eq!(
        encode_server_message(&ServerMessage::Auth(AuthResponse {
            uuid: "u".to_string(),
            access_token: "t".to_string()
        })),
        "{\"accessToken\":\"t\",\"type\":\"auth\",\"uuid\":\"u\"}"
    );
    assert_eq!(
        encode_server_message(&ServerMessage::Error(Error { msg: "no".to_string() })),
        "{\"msg\":\"no\",\"type\":\"error\"}"
    );
    assert_eq!(
        encode_server_message(&ServerMessage::ProfileResources(ProfileResourcesResponse {
            list: vec!["a".to_string(), "b".to_string()]
        })),
        "{\"list\":[\"a\",\"b\"],\"type\":\"profileResources\"}"
    );
    assert_eq!(
        encode_server_message(&ServerMessage::ProfileResources(ProfileResourcesResponse {
            list: vec![]
        })),
        "{\"list\":[],\"type\":\"profileResources\"}"
    );
    assert_eq!(
        encode_server_message(&ServerMessage::Profiles(ProfilesResponse {
            profiles: vec![
                ProfileSummary {
                    name: "main".to_string(),
                    version: "1.16".to_string(),
                    optionals: vec!["shaders".to_string()]
                },
                ProfileSummary {
                    name: "test".to_string(),
                    version: "1.12".to_string(),
                    optionals: vec![]
                }
            ]
        })),
        "{\"profiles\":[{\"name\":\"main\",\"optionals\":[\"shaders\"],\"version\":\"1.16\"},{\"name\":\"test\",\"optionals\":[],\"version\":\"1.12\"}],\"type\":\"profiles\"}"
    );
}

#[test]
fn every_kind_of_request_comes_back_from_its_frame() {
    let requests = vec![
        auth("Test", "test"),
        auth("", ""),
        auth("quote\"back\\slash", "line\nbreak\ttab\r\u{8}\u{c}\u{0}\u{1f}\u{7f}"),
        auth("юникод ✓", "{\"type\":\"profiles\"}"),
        ClientMessage::Profiles(ProfilesMessage {}),
        ClientMessage::ProfileResources(ProfileResourcesMessage { profile: "main".to_string() }),
        ClientMessage::ProfileResources(ProfileResourcesMessage { profile: "\",\"x\":\"".to_string() }),
    ];
    for request in requests {
        let frame = encode_client_message(&request);
        let back = decode_client_message(&frame).expect("a frame of a request is read");
        assert!(same_request(&request, &back), "{:?} came back as {:?}", request, back);
    }
}

#[test]
fn every_kind_of_answer_comes_back_from_its_frame() {
    let answers = vec![
        ServerMessage::Auth(AuthResponse { uuid: "u-1".to_string(), access_token: "t".to_string() }),
        ServerMessage::Error(Error { msg: "This profile doesn't exist!".to_string() }),
        ServerMessage::ProfileResources(ProfileResourcesResponse { list: vec![] }),
        ServerMessage::ProfileResources(ProfileResourcesResponse {
            list: vec!["static/main/a.jar".to_string(), "b\\c".to_string(), "]".to_string()],
        }),
        ServerMessage::Profiles(ProfilesResponse { profiles: vec![] }),
        ServerMessage::Profiles(ProfilesResponse {
            profiles: vec![
                ProfileSummary {
                    name: "main".to_string(),
                    version: "1.16".to_string(),
                    optionals: vec!["a".to_string(), "b,\"c".to_string()],
                },
                ProfileSummary { name: "}".to_string(), version: "".to_string(), optionals: vec![] },
            ],
        }),
    ];
    for answer in answers {
        let frame = encode_server_message(&answer);
        let back = decode_server_message(&frame).expect("a frame of an answer is read");
        assert!(same_answer(&answer, &back), "{:?} came back as {:?}", answer, back);
    }
}

#[test]
fn quoted_strings_are_written_as_json_writes_them() {
    for text in ["plain", "", "a\"b", "a\\b", "\n\r\t\u{8}\u{c}", "\u{0}\u{1}\u{b}\u{1f}", "\u{7f}é✓/"] {
        let frame = encode_client_message(&ClientMessage::ProfileResources(
            ProfileResourcesMessage { profile: text.to_string() },
        ));
        let quoted = serde_json::to_string(text).unwrap();
        assert_eq!(frame, format!("{{\"profile\":{},\"type\":\"profileResources\"}}", quoted));
        let value: serde_json::Value = serde_json::from_str(&frame).unwrap();
        assert_eq!(value.get("type").and_then(|v| v.as_str()), Some("profileResources"));
        assert_eq!(value.get("profile").and_then(|v| v.as_str()), Some(text));
    }
}

#[test]
fn a_text_that_is_no_frame_gives_nothing() {
    for text in [
        "",
        "{}",
        "Auth",
        "{\"type\":\"auth\"}",
        "{\"login\":\"a\",\"type\":\"auth\"}",
        "{\"login\":\"a\",\"password\":\"b\",\"type\":\"auth\"",
        "{\"login\":\"a\",\"password\":\"b\",\"type\":\"auth\"} ",
        " {\"type\":\"profiles\"}",
        "{\"type\":\"profiles\"}}",
        "{\"type\":\"unknown\"}",
        "{\"type\":\"auth\",\"login\":\"a\",\"password\":\"b\"}",
        "{\"login\":\"a\nb\",\"password\":\"b\",\"type\":\"auth\"}",
        "{\"login\":\"\\x\",\"password\":\"b\",\"type\":\"auth\"}",
        "{\"login\":\"\\u0041\",\"password\":\"b\",\"type\":\"auth\"}",
        "{\"login\":\"\\u000a\",\"password\":\"b\",\"type\":\"auth\"}",
        "{\"login\":\"\\u001F\",\"password\":\"b\",\"type\":\"auth\"}",
        "{\"profile\":\"a\\\",\"type\":\"profileResources\"}",
    ] {
        assert!(decode_client_message(text).is_none(), "{:?} was read", text);
    }
    for text in [
        "",
        "{\"type\":\"profiles\"}",
        "{\"list\":[\"a\",],\"type\":\"profileResources\"}",
        "{\"list\":[,\"a\"],\"type\":\"profileResources\"}",
        "{\"list\":[\"a\" \"b\"],\"type\":\"profileResources\"}",
        "{\"list\":[\"a\"},\"type\":\"profileResources\"}",
        "{\"profiles\":[{\"name\":\"a\"}],\"type\":\"profiles\"}",
        "{\"msg\":\"a\",\"type\":\"error\"}x",
        "{\"type\":\"error\",\"msg\":\"a\"}",
    ] {
        assert!(decode_server_message(text).is_none(), "{:?} was read", text);
    }
}

#[test]
fn escapes_are_read_back() {
    let frame = "{\"profile\":\"\\\"\\\\\\b\\f\\n\\r\\t\\u0000\\u001f\",\"type\":\"profileResources\"}";
    match decode_client_message(frame) {
        Some(ClientMessage::ProfileResources(m)) => {
            assert_eq!(m.profile, "\"\\\u{8}\u{c}\n\r\t\u{0}\u{1f}")
        }
        other => panic!("read {:?}", other),
    }
}

#[test]
fn json_in_another_form_is_read_as_the_same_message() {
    let texts = [
        "{\"type\":\"auth\",\"login\":\"Test\",\"password\":\"test\"}",
        "{\"password\":\"test\",\"type\":\"auth\",\"login\":\"Test\"}",
        " {\n  \"login\" : \"Test\",\n  \"password\" : \"test\",\n  \"type\" : \"auth\"\n}\n",
        "{\"login\":\"\\u0054est\",\"password\":\"te\\u0073t\",\"type\":\"auth\"}",
    ];
    for text in texts {
        assert!(decode_client_message(text).is_none());
        match read_client_message(text) {
            Some(ClientMessage::Auth(auth)) => {
                assert_eq!(auth.login, "Test");
                assert_eq!(auth.password, "test");
            }
            other => panic!("{:?} was read as {:?}", text, other),
        }
    }
    match read_client_message("{ \"type\": \"profiles\" }") {
        Some(ClientMessage::Profiles(_)) => {}
        other => panic!("read {:?}", other),
    }
    match read_server_message("{\"type\":\"profileResources\", \"list\":[ \"a\" , \"b\" ]}") {
        Some(ServerMessage::ProfileResources(resources)) => {
            assert_eq!(resources.list, vec!["a".to_string(), "b".to_string()])
        }
        other => panic!("read {:?}", other),
    }
    match read_server_message(
        "{\"type\":\"profiles\",\"profiles\":[{\"version\":\"1\",\"name\":\"n\",\"optionals\":[]}]}",
    ) {
        Some(ServerMessage::Profiles(catalog)) => {
            assert_eq!(catalog.profiles.len(), 1);
            assert_eq!(catalog.profiles[0].name, "n");
            assert_eq!(catalog.profiles[0].version, "1");
        }
        other => panic!("read {:?}", other),
    }
    match read_server_message("{\"uuid\":\"u\",\"accessToken\":\"t\",\"type\":\"auth\"}") {
        Some(ServerMessage::Auth(auth)) => {
            assert_eq!(auth.uuid, "u");
            assert_eq!(auth.access_token, "t");
        }
        other => panic!("read {:?}", other),
    }
}

#[test]
fn what_is_no_message_is_not_read_in_any_form() {
    for text in [
        "",
        "not json",
        "[]",
        "\"auth\"",
        "{\"type\":\"auth\"}",
        "{\"type\":\"auth\",\"login\":\"a\"}",
        "{\"type\":\"auth\",\"login\":1,\"password\":\"b\"}",
        "{\"type\":\"logout\"}",
        "{\"type\":\"profileResources\",\"profile\":null}",
    ] {
        assert!(read_client_message(text).is_none(), "{:?} was read", text);
        assert!(read_server_message(text).is_none(), "{:?} was read", text);
    }
}

#[test]
fn a_frame_is_read_the_same_way_by_both_readers() {
    let request = auth("Test", "te\"st");
    let frame = encode_client_message(&request);
    let strict = decode_client_message(&frame).unwrap();
    let lenient = read_client_message(&frame).unwrap();
    assert!(same_request(&strict, &lenient));
    assert!(same_request(&request, &lenient));
}
