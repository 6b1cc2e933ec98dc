use launch_core::auth::{
    fetched_result, AcceptAuthProvider, AuthProvide, AuthResult, Fetched, JsonAuthConfig,
    JsonAuthProvider,
};
use launch_core::client::{
    auth_outcome, auth_request, get_origin, received_answer, Session, SessionEvent, SessionState,
};
use launch_core::codec::{decode_server_message, encode_client_message, encode_server_message};
use launch_core::message::{
    AuthResponse, ClientMessage, Error, ProfileResourcesMessage, ProfileResourcesResponse,
    ProfilesMessage, ProfilesResponse, ServerMessage,
};
use launch_core::optional::Optional;
use launch_core::profile::Profile;
use launch_core::server::{
    auth_answer, auth_step, auth_step_with_token, dispatch, profiles_answer, regular_files,
    resources_answer, resources_step, route, AuthStep, ResourcesStep, ServerStep,
};
use launch_core::uuid::Uuid;

fn strings(items: &[&str]) -> Vec<String> {
    items.iter().map(|s| s.to_string()).collect()
}

fn some_uuid() -> Uuid {
    Uuid::from_bytes([
        0x12, 0x3e, 0x45, 0x67, 0xe8, 0x9b, 0x12, 0xd3, 0xa4, 0x56, 0x42, 0x66, 0x14, 0x17, 0x40, 0x00,
    ])
}

fn profile(name: &str, version: &str, optionals: Vec<Optional>) -> Profile {
    Profile {
        name: name.to_string(),
        version: version.to_string(),
        libraries: vec![],
        class_path: vec![],
        client_args: vec![],
        assets_dir: "assets".to_string(),
        assets: "1.16".to_string(),
        server_name: "localhost".to_string(),
        server_port: 25565,
        optionals,
    }
}

fn feature(visible: bool, name: Option<&str>) -> Optional {
    Optional {
        actions: vec![],
        rules: vec![],
        enabled: true,
        visible,
        description: None,
        name: name.map(|s| s.to_string()),
    }
}

#[test]
fn uuid_is_written_as_the_uuid_crate_writes_it() {
    let id = some_uuid();
    assert_eq!(id.to_hyphenated(), "123e4567-e89b-12d3-a456-426614174000");
    assert_eq!(id.to_hyphenated(), uuid::Uuid::from_bytes(id.bytes).to_string());
    let zero = Uuid::from_bytes([0; 16]);
    assert_eq!(zero.to_hyphenated(), "00000000-0000-0000-0000-000000000000");
    let full = Uuid::from_bytes([0xff; 16]);
    assert_eq!(full.to_hyphenated(), uuid::Uuid::from_bytes([0xff; 16]).to_string());
}

#[test]
fn accepted_login_has_its_token_stored_and_is_answered() {
    let judged = Ok(AuthResult { uuid: Some(some_uuid()), message: None });
    match auth_step_with_token(judged, "token".to_string()) {
        AuthStep::Persist { uuid, access_token } => {
            assert_eq!(uuid.bytes, some_uuid().bytes);
            assert_eq!(access_token, "token");
            match auth_answer(&uuid, access_token, true) {
                Some(ServerMessage::Auth(auth)) => {
                    assert_eq!(auth.uuid, "123e4567-e89b-12d3-a456-426614174000");
                    assert_eq!(auth.access_token, "token");
                }
                other => panic!("answered {:?}", other),
            }
        }
        other => panic!("decided {:?}", other),
    }
}

#[test]
fn token_that_was_not_stored_is_not_answered() {
    assert!(auth_answer(&some_uuid(), "token".to_string(), false).is_none());
}

#[test]
fn accepted_login_gets_a_fresh_token() {
    let mut issued = vec![];
    let first = auth_step(Ok(AuthResult { uuid: Some(some_uuid()), message: None }), &mut issued);
    let second = auth_step(Ok(AuthResult { uuid: Some(some_uuid()), message: None }), &mut issued);
    assert_eq!(issued.len(), 2);
    assert_ne!(issued[0], issued[1]);
    match (first, second) {
        (
            AuthStep::Persist { access_token: a, .. },
            AuthStep::Persist { access_token: b, .. },
        ) => {
            assert_eq!(a.len(), 32);
            assert_eq!(b.len(), 32);
            assert!(a.chars().all(|c| c.is_ascii_hexdigit() && !c.is_ascii_uppercase()));
        }
        other => panic!("decided {:?}", other),
    }
}

#[test]
fn refused_login_is_answered_with_the_backends_message() {
    let judged = Ok(AuthResult { uuid: None, message: Some("Wrong password".to_string()) });
    match auth_step(judged, &mut vec![]) {
        AuthStep::Reply(ServerMessage::Error(error)) => assert_eq!(error.msg, "Wrong password"),
        other => panic!("decided {:?}", other),
    }
    let both = Ok(AuthResult { uuid: Some(some_uuid()), message: Some("Banned".to_string()) });
    match auth_step_with_token(both, "t".to_string()) {
        AuthStep::Reply(ServerMessage::Error(error)) => assert_eq!(error.msg, "Banned"),
        other => panic!("decided {:?}", other),
    }
}

#[test]
fn failed_backend_is_answered_with_its_error() {
    let failed = fetched_result::<AuthResult>(Fetched::Unreachable);
    match auth_step(failed, &mut vec![]) {
        AuthStep::Reply(ServerMessage::Error(error)) => assert_eq!(error.msg, "Can't connect"),
        other => panic!("decided {:?}", other),
    }
    let unreadable = fetched_result::<AuthResult>(Fetched::Unreadable);
    assert_eq!(unreadable.unwrap_err().message, "Can't parse json");
    let value = fetched_result(Fetched::Value(7u8));
    assert_eq!(value.unwrap(), 7);
}

#[test]
fn auth_against_the_accept_all_backend_never_succeeds() {
    let backend = AcceptAuthProvider {};
    let password = "test".to_string();
    let request = auth_request("Test", password);
    let frame = encode_client_message(&request);
    let profiles = strings(&["main"]);
    let catalog = vec![];
    let auth = match dispatch(&frame, &profiles, &catalog) {
        ServerStep::Authenticate(auth) => auth,
        other => panic!("decided {:?}", other),
    };
    assert_eq!(auth.login, "Test");
    assert_eq!(auth.password, "test");
    let judged = backend.auth(&auth.login, &auth.password, &"".to_string());
    assert!(judged.is_err());
    let answer = match auth_step(judged, &mut vec![]) {
        AuthStep::Reply(answer) => answer,
        other => panic!("decided {:?}", other),
    };
    let back = received_answer(Some(&encode_server_message(&answer)));
    let outcome = auth_outcome(back);
    assert_eq!(outcome.unwrap_err().msg, "No auth backend is configured");
    assert!(backend.get_entry(&some_uuid()).is_err());
    assert!(backend.get_entry_from_name(&"Test".to_string()).is_err());
    assert!(!backend.update_access_token(&some_uuid(), &"t".to_string()));
    assert!(!backend.update_server_id(&some_uuid(), &"s".to_string()));
}

#[test]
fn unknown_profile_is_answered_with_the_fixed_error() {
    let profiles = strings(&["main", "test"]);
    let request = ProfileResourcesMessage { profile: "unknown".to_string() };
    match resources_step(&profiles, &request) {
        ResourcesStep::Reply(ServerMessage::Error(error)) => {
            assert_eq!(error.msg, "This profile doesn't exist!")
        }
        other => panic!("decided {:?}", other),
    }
    let frame = encode_client_message(&ClientMessage::ProfileResources(request));
    match dispatch(&frame, &profiles, &vec![]) {
        ServerStep::Reply(answer) => assert_eq!(
            encode_server_message(&answer),
            "{\"msg\":\"This profile doesn't exist!\",\"type\":\"error\"}"
        ),
        other => panic!("decided {:?}", other),
    }
}

#[test]
fn known_profile_has_its_directory_walked() {
    let profiles = strings(&["main", "test"]);
    let request = ProfileResourcesMessage { profile: "test".to_string() };
    match resources_step(&profiles, &request) {
        ResourcesStep::Walk { directory } => assert_eq!(directory, "static/test"),
        other => panic!("decided {:?}", other),
    }
    match route(ClientMessage::ProfileResources(request), &profiles, &vec![]) {
        ServerStep::Walk { directory } => assert_eq!(directory, "static/test"),
        other => panic!("decided {:?}", other),
    }
    match resources_answer(strings(&["static/test/a.jar"])) {
        ServerMessage::ProfileResources(ProfileResourcesResponse { list }) => {
            assert_eq!(list, strings(&["static/test/a.jar"]))
        }
        other => panic!("answered {:?}", other),
    }
}

#[test]
fn catalog_lists_every_profile_with_its_visible_features() {
    let catalog = vec![
        profile(
            "main",
            "1.16.5",
            vec![
                feature(true, Some("shaders")),
                feature(false, Some("hidden")),
                feature(true, None),
                feature(true, Some("maps")),
            ],
        ),
        profile("test", "1.12.2", vec![]),
    ];
    match profiles_answer(&catalog) {
        ServerMessage::Profiles(ProfilesResponse { profiles }) => {
            assert_eq!(profiles.len(), 2);
            assert_eq!(profiles[0].name, "main");
            assert_eq!(profiles[0].version, "1.16.5");
            assert_eq!(profiles[0].optionals, strings(&["shaders", "maps"]));
            assert_eq!(profiles[1].name, "test");
            assert_eq!(profiles[1].version, "1.12.2");
            assert!(profiles[1].optionals.is_empty());
        }
        other => panic!("answered {:?}", other),
    }
    let frame = encode_client_message(&ClientMessage::Profiles(ProfilesMessage {}));
    match dispatch(&frame, &strings(&[]), &catalog) {
        ServerStep::Reply(ServerMessage::Profiles(answer)) => assert_eq!(answer.profiles.len(), 2),
        other => panic!("decided {:?}", other),
    }
}

#[test]
fn malformed_frame_is_ignored() {
    for frame in ["", "not json", "{\"type\":\"auth\"}", "{\"type\":\"logout\"}"] {
        match dispatch(frame, &strings(&["main"]), &vec![]) {
            ServerStep::Ignore => {}
            other => panic!("decided {:?}", other),
        }
    }
}

#[test]
fn client_maps_the_answer_to_a_login() {
    let ok = auth_outcome(ServerMessage::Auth(AuthResponse {
        uuid: "u".to_string(),
        access_token: "t".to_string(),
    }));
    let auth = ok.unwrap();
    assert_eq!(auth.uuid, "u");
    assert_eq!(auth.access_token, "t");
    let refused = auth_outcome(ServerMessage::Error(Error { msg: "Wrong password".to_string() }));
    assert_eq!(refused.unwrap_err().msg, "Wrong password");
    let other = auth_outcome(ServerMessage::ProfileResources(ProfileResourcesResponse {
        list: vec![],
    }));
    assert_eq!(other.unwrap_err().msg, "Auth not found");
    let catalog = auth_outcome(ServerMessage::Profiles(ProfilesResponse { profiles: vec![] }));
    assert_eq!(catalog.unwrap_err().msg, "Auth not found");
}

#[test]
fn client_reads_what_arrives() {
    match received_answer(Some("{\"type\":\"error\",\"msg\":\"no\"}")) {
        ServerMessage::Error(error) => assert_eq!(error.msg, "no"),
        other => panic!("read {:?}", other),
    }
    match received_answer(Some("garbage")) {
        ServerMessage::Error(error) => assert_eq!(error.msg, "Malformed answer"),
        other => panic!("read {:?}", other),
    }
    match received_answer(None) {
        ServerMessage::Error(error) => assert_eq!(error.msg, "what"),
        other => panic!("read {:?}", other),
    }
    assert!(decode_server_message("garbage").is_none());
}

#[test]
fn session_goes_through_its_stages() {
    let mut session = Session::new();
    assert_eq!(session.state, SessionState::Disconnected);
    assert!(!session.may_send());
    let path = [
        (SessionEvent::Connect, SessionState::Connecting, false),
        (SessionEvent::Opened, SessionState::Authenticating, false),
        (SessionEvent::LoggedIn, SessionState::Authenticated, true),
        (SessionEvent::ProfileRequested, SessionState::FetchingProfile, false),
        (SessionEvent::ProfileReceived, SessionState::Resolving, true),
        (SessionEvent::Resolved, SessionState::ReadyToLaunch, true),
    ];
    for (event, state, may_send) in path {
        session.advance(event);
        assert_eq!(session.state, state);
        assert_eq!(session.may_send(), may_send);
        assert!(session.last_error.is_none());
    }
    session.advance(SessionEvent::Connect);
    assert_eq!(session.state, SessionState::ReadyToLaunch);
}

#[test]
fn failure_ends_a_session_at_every_stage() {
    let events = [
        SessionEvent::Connect,
        SessionEvent::Opened,
        SessionEvent::LoggedIn,
        SessionEvent::ProfileRequested,
        SessionEvent::ProfileReceived,
        SessionEvent::Resolved,
    ];
    for reached in 0..=events.len() {
        let mut session = Session::new();
        for event in &events[..reached] {
            session.advance(*event);
        }
        session.fail("connection reset".to_string());
        assert_eq!(session.state, SessionState::Disconnected);
        assert_eq!(session.last_error.as_deref(), Some("connection reset"));
        session.advance(SessionEvent::Opened);
        assert_eq!(session.state, SessionState::Disconnected);
        session.advance(SessionEvent::Connect);
        assert_eq!(session.state, SessionState::Connecting);
        assert_eq!(session.last_error.as_deref(), Some("connection reset"));
    }
}

#[test]
fn origin_follows_the_scheme() {
    assert_eq!(get_origin("wss", Some("example.com")), "https://example.com");
    assert_eq!(get_origin("ws", Some("example.com")), "http://example.com");
    assert_eq!(get_origin("http", None), "http://");
    assert_eq!(get_origin("wss", None), "https://");
    let url = url::Url::parse("wss://play.example.org:8080/api/").unwrap();
    assert_eq!(get_origin(url.scheme(), url.host_str()), "https://play.example.org");
}

#[test]
fn http_backend_is_asked_with_json_objects() {
    let backend = JsonAuthProvider::new(JsonAuthConfig {
        auth_url: "http://b/auth".to_string(),
        entry_url: "http://b/entry".to_string(),
        update_access_token_url: "http://b/token".to_string(),
        update_server_id_url: "http://b/server".to_string(),
    });
    let auth = backend.auth_request(&"Te\"st".to_string(), &"pw".to_string(), &"".to_string());
    assert_eq!(auth.url, "http://b/auth");
    assert_eq!(auth.body, "{\"ip\":\"\",\"password\":\"pw\",\"username\":\"Te\\\"st\"}");
    let mut expected = serde_json::Map::new();
    expected.insert("username".to_string(), serde_json::Value::String("Te\"st".to_string()));
    expected.insert("password".to_string(), serde_json::Value::String("pw".to_string()));
    expected.insert("ip".to_string(), serde_json::Value::String("".to_string()));
    let parsed: serde_json::Value = serde_json::from_str(&auth.body).unwrap();
    assert_eq!(parsed, serde_json::Value::Object(expected));
    let entry = backend.entry_request(&some_uuid());
    assert_eq!(entry.url, "http://b/entry");
    assert_eq!(entry.body, "{\"uuid\":\"123e4567-e89b-12d3-a456-426614174000\"}");
    let by_name = backend.entry_from_name_request(&"Test".to_string());
    assert_eq!(by_name.url, "http://b/entry");
    assert_eq!(by_name.body, "{\"username\":\"Test\"}");
    let token = backend.update_access_token_request(&some_uuid(), &"abc".to_string());
    assert_eq!(token.url, "http://b/token");
    assert_eq!(
        token.body,
        "{\"accessToken\":\"abc\",\"uuid\":\"123e4567-e89b-12d3-a456-426614174000\"}"
    );
    let server = backend.update_server_id_request(&some_uuid(), &"srv".to_string());
    assert_eq!(server.url, "http://b/server");
    assert_eq!(
        server.body,
        "{\"serverId\":\"srv\",\"uuid\":\"123e4567-e89b-12d3-a456-426614174000\"}"
    );
}

#[test]
fn accepted_login_without_identity_is_answered_with_an_error() {
    let judged = Ok(AuthResult { uuid: None, message: None });
    match auth_step(judged, &mut vec![]) {
        AuthStep::Reply(ServerMessage::Error(error)) => {
            assert_eq!(error.msg, "Auth backend gave no identity")
        }
        other => panic!("decided {:?}", other),
    }
    let judged = Ok(AuthResult { uuid: None, message: None });
    match auth_step_with_token(judged, "token".to_string()) {
        AuthStep::Reply(ServerMessage::Error(error)) => {
            assert_eq!(error.msg, "Auth backend gave no identity")
        }
        other => panic!("decided {:?}", other),
    }
}

#[test]
fn every_issuance_gets_a_token_that_was_not_issued_before() {
    let mut issued: Vec<String> = Vec::new();
    for round in 0..32 {
        let before = issued.clone();
        let judged = Ok(AuthResult { uuid: Some(some_uuid()), message: None });
        match auth_step(judged, &mut issued) {
            AuthStep::Persist { access_token, .. } => {
                assert_eq!(access_token.len(), 32);
                assert!(!before.contains(&access_token));
                assert_eq!(issued.len(), round + 1);
                assert_eq!(issued[..round], before[..]);
                assert_eq!(issued[round], access_token);
            }
            other => panic!("decided {:?}", other),
        }
    }
    let before = issued.clone();
    let refused = Ok(AuthResult { uuid: None, message: Some("no".to_string()) });
    match auth_step(refused, &mut issued) {
        AuthStep::Reply(ServerMessage::Error(error)) => assert_eq!(error.msg, "no"),
        other => panic!("decided {:?}", other),
    }
    assert_eq!(issued, before);
}

#[test]
fn regular_files_are_taken_in_the_order_of_the_walk() {
    let entries = vec![
        ("static/main".to_string(), false),
        ("static/main/b.jar".to_string(), true),
        ("static/main/lib".to_string(), false),
        ("static/main/lib/a.jar".to_string(), true),
    ];
    assert_eq!(regular_files(&entries), strings(&["static/main/b.jar", "static/main/lib/a.jar"]));
    assert_eq!(regular_files(&vec![]), Vec::<String>::new());
    assert_eq!(regular_files(&vec![("d".to_string(), false)]), Vec::<String>::new());
}
