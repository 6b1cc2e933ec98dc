//! The frames of a session: how a message is written as text and how a text
//! is read as a message.
//!
//! A message is written as one JSON object in its shortest form, with the
//! keys in alphabetical order: the fields of the message under
//! lower-camel-case keys, and under `type` the kind of message. That text is
//! the frame of the message. Reading takes a frame, and besides it every JSON
//! text that `serde_json` writes back as a frame: the same object with its
//! keys in another order, with space between its tokens, or with characters
//! escaped that need not be.

use vstd::prelude::*;
use vstd::string::StringExecFns;
use crate::message::{
    summaries_view, AuthMessage, AuthResponse, ClientMessage, ClientMessageView, Error,
    ProfileResourcesMessage, ProfileResourcesResponse, ProfileSummaryView, ProfilesMessage,
    ProfilesResponse, ServerMessage, ServerMessageView,
};
use crate::wire::{at, chars_of, expect, lemma_at_split};
use crate::wire_record::{
    lemma_one_list_exact, lemma_one_text_exact, lemma_two_texts_exact, one_list, one_text,
    read_one_list, read_one_text, read_two_texts, two_texts, write_one_list, write_one_text,
    write_two_texts,
};
use crate::wire_summary::{catalog_text, lemma_uncatalog_exact, push_catalog, read_catalog, uncatalog};

verus! {

/// What `serde_json` writes for the value that it reads from a text, where
/// it reads one.
pub uninterp spec fn json_rewritten(text: Seq<char>) -> Option<Seq<char>>;

/// `serde_json::from_str` into a `Value` and `serde_json::to_string` of that
/// value, taken on trust: what comes back is what `json_rewritten` names, the
/// text that is written for what was read, and nothing where the text is not
/// read as JSON. Of that text nothing more is said here than its name.
#[verifier::external_body]
fn rewrite_json(text: &str) -> (r: Option<String>)
    ensures
        match r {
            Some(written) => json_rewritten(text@) == Some(written@),
            None => json_rewritten(text@) is None,
        },
{
    match serde_json::from_str::<serde_json::Value>(text) {
        Ok(value) => serde_json::to_string(&value).ok(),
        Err(_) => None,
    }
}

/// What stands before the login in a request to log in.
pub open spec fn auth_request_head() -> Seq<char> {
    "{\"login\":"@
}

/// What stands between the login and the password.
pub open spec fn auth_request_middle() -> Seq<char> {
    ",\"password\":"@
}

/// What ends a request to log in.
pub open spec fn auth_request_tail() -> Seq<char> {
    ",\"type\":\"auth\"}"@
}

/// The request for the catalog of profiles.
pub open spec fn profiles_request() -> Seq<char> {
    "{\"type\":\"profiles\"}"@
}

/// What stands before the profile's name in a request for its files.
pub open spec fn resources_request_head() -> Seq<char> {
    "{\"profile\":"@
}

/// What ends a request for the files of a profile.
pub open spec fn resources_request_tail() -> Seq<char> {
    ",\"type\":\"profileResources\"}"@
}

/// The frame of a request.
pub open spec fn client_wire(message: ClientMessageView) -> Seq<char> {
    match message {
        ClientMessageView::Auth { login, password } => two_texts(
            auth_request_head(),
            auth_request_middle(),
            auth_request_tail(),
            login,
            password,
        ),
        ClientMessageView::Profiles => profiles_request(),
        ClientMessageView::ProfileResources { profile } => one_text(
            resources_request_head(),
            resources_request_tail(),
            profile,
        ),
    }
}

/// The request that a text is the frame of, if it is the frame of one.
pub open spec fn client_unwire(text: Seq<char>) -> Option<ClientMessageView> {
    if exists|message: ClientMessageView| client_wire(message) == text {
        Some(choose|message: ClientMessageView| client_wire(message) == text)
    } else {
        None
    }
}

/// The request that a text is read as: the one whose frame it is, or else
/// the one whose frame it is written back as.
pub open spec fn client_read(text: Seq<char>) -> Option<ClientMessageView> {
    match client_unwire(text) {
        Some(message) => Some(message),
        None => match json_rewritten(text) {
            Some(written) => client_unwire(written),
            None => None,
        },
    }
}

proof fn lemma_request_kinds_differ(a: ClientMessageView, b: ClientMessageView)
    requires
        client_wire(a) == client_wire(b),
    ensures
        a is Auth <==> b is Auth,
        a is Profiles <==> b is Profiles,
        a is ProfileResources <==> b is ProfileResources,
{
    reveal_strlit("{\"login\":");
    reveal_strlit("{\"type\":\"profiles\"}");
    reveal_strlit("{\"profile\":");
    let text = client_wire(a);
    assert(a is Auth ==> text[2] == 'l');
    assert(a is Profiles ==> text[2] == 't');
    assert(a is ProfileResources ==> text[2] == 'p');
    let other = client_wire(b);
    assert(b is Auth ==> other[2] == 'l');
    assert(b is Profiles ==> other[2] == 't');
    assert(b is ProfileResources ==> other[2] == 'p');
}

/// Two requests with one frame are one request.
pub proof fn lemma_client_wire_injective(a: ClientMessageView, b: ClientMessageView)
    requires
        client_wire(a) == client_wire(b),
    ensures
        a == b,
{
    lemma_request_kinds_differ(a, b);
    let text = client_wire(a);
    match a {
        ClientMessageView::Auth { login, password } => {
            lemma_two_texts_exact(
                text,
                auth_request_head(),
                auth_request_middle(),
                auth_request_tail(),
                login,
                password,
            );
            lemma_two_texts_exact(
                text,
                auth_request_head(),
                auth_request_middle(),
                auth_request_tail(),
                b->login,
                b->password,
            );
        },
        ClientMessageView::Profiles => {},
        ClientMessageView::ProfileResources { profile } => {
            lemma_one_text_exact(text, resources_request_head(), resources_request_tail(), profile);
            lemma_one_text_exact(
                text,
                resources_request_head(),
                resources_request_tail(),
                b->profile,
            );
        },
    }
}

/// Writing a request and reading the frame gives the request back, whatever
/// the request is.
pub proof fn lemma_client_round_trip(message: ClientMessageView)
    ensures
        client_unwire(client_wire(message)) == Some(message),
        client_read(client_wire(message)) == Some(message),
{
    let text = client_wire(message);
    let found = choose|found: ClientMessageView| client_wire(found) == text;
    lemma_client_wire_injective(found, message);
}

/// Writes a request as its frame.
pub fn encode_client_message(message: &ClientMessage) -> (r: String)
    ensures
        r@ == client_wire(message@),
{
    match message {
        ClientMessage::Auth(auth) => write_two_texts(
            "{\"login\":",
            ",\"password\":",
            ",\"type\":\"auth\"}",
            auth.login.as_str(),
            auth.password.as_str(),
        ),
        ClientMessage::Profiles(_) => String::from_str("{\"type\":\"profiles\"}"),
        ClientMessage::ProfileResources(resources) => write_one_text(
            "{\"profile\":",
            ",\"type\":\"profileResources\"}",
            resources.profile.as_str(),
        ),
    }
}

/// Reads a frame as the request whose frame it is. A text that is not the
/// frame of a request gives nothing.
pub fn decode_client_message(text: &str) -> (r: Option<ClientMessage>)
    ensures
        match r {
            Some(message) => text@ == client_wire(message@),
            None => forall|message: ClientMessageView| text@ != #[trigger] client_wire(message),
        },
        match r {
            Some(message) => client_unwire(text@) == Some(message@),
            None => client_unwire(text@) is None,
        },
{
    let input = chars_of(text);
    let auth = read_two_texts(&input, "{\"login\":", ",\"password\":", ",\"type\":\"auth\"}");
    if let Some((login, password)) = auth {
        let message = ClientMessage::Auth(AuthMessage { login, password });
        proof {
            lemma_two_texts_exact(
                input@,
                auth_request_head(),
                auth_request_middle(),
                auth_request_tail(),
                message@->login,
                message@->password,
            );
            lemma_client_round_trip(message@);
        }
        return Some(message);
    }
    let resources = read_one_text(&input, "{\"profile\":", ",\"type\":\"profileResources\"}");
    if let Some(profile) = resources {
        let message = ClientMessage::ProfileResources(ProfileResourcesMessage { profile });
        proof {
            lemma_one_text_exact(
                input@,
                resources_request_head(),
                resources_request_tail(),
                message@->profile,
            );
            lemma_client_round_trip(message@);
        }
        return Some(message);
    }
    let whole = expect(&input, 0, "{\"type\":\"profiles\"}");
    if let Some(end) = whole {
        if end == input.len() {
            let message = ClientMessage::Profiles(ProfilesMessage {  });
            proof {
                assert(input@.subrange(0, input@.len() as int) =~= input@);
                lemma_client_round_trip(message@);
            }
            return Some(message);
        }
    }
    proof {
        assert forall|message: ClientMessageView| text@ != #[trigger] client_wire(message) by {
            match message {
                ClientMessageView::Auth { login, password } => {
                    lemma_two_texts_exact(
                        input@,
                        auth_request_head(),
                        auth_request_middle(),
                        auth_request_tail(),
                        login,
                        password,
                    );
                },
                ClientMessageView::Profiles => {
                    if text@ == profiles_request() {
                        assert(input@.subrange(0, input@.len() as int) =~= input@);
                    }
                },
                ClientMessageView::ProfileResources { profile } => {
                    lemma_one_text_exact(
                        input@,
                        resources_request_head(),
                        resources_request_tail(),
                        profile,
                    );
                },
            }
        }
    }
    None
}

/// Reads a text as a request: as the request whose frame it is, or else as
/// the request whose frame `serde_json` writes it back as.
pub fn read_client_message(text: &str) -> (r: Option<ClientMessage>)
    ensures
        match r {
            Some(message) => client_read(text@) == Some(message@),
            None => client_read(text@) is None,
        },
{
    match decode_client_message(text) {
        Some(message) => Some(message),
        None => match rewrite_json(text) {
            Some(written) => decode_client_message(written.as_str()),
            None => None,
        },
    }
}

/// What stands before the access token in the answer to a log-in.
pub open spec fn auth_reply_head() -> Seq<char> {
    "{\"accessToken\":"@
}

/// What stands between the access token and the identity.
pub open spec fn auth_reply_middle() -> Seq<char> {
    ",\"type\":\"auth\",\"uuid\":"@
}

/// What ends the answer to a log-in.
pub open spec fn auth_reply_tail() -> Seq<char> {
    "}"@
}

/// What stands before the catalog of profiles.
pub open spec fn profiles_reply_head() -> Seq<char> {
    "{\"profiles\":"@
}

/// What ends the catalog of profiles.
pub open spec fn profiles_reply_tail() -> Seq<char> {
    ",\"type\":\"profiles\"}"@
}

/// What stands before the list of files of a profile.
pub open spec fn resources_reply_head() -> Seq<char> {
    "{\"list\":"@
}

/// What ends the list of files of a profile.
pub open spec fn resources_reply_tail() -> Seq<char> {
    ",\"type\":\"profileResources\"}"@
}

/// What stands before the message of a failure.
pub open spec fn error_reply_head() -> Seq<char> {
    "{\"msg\":"@
}

/// What ends the message of a failure.
pub open spec fn error_reply_tail() -> Seq<char> {
    ",\"type\":\"error\"}"@
}

/// The frame of a catalog of profiles.
pub open spec fn catalog_frame(profiles: Seq<ProfileSummaryView>) -> Seq<char> {
    profiles_reply_head() + catalog_text(profiles) + profiles_reply_tail()
}

/// The frame of an answer.
pub open spec fn server_wire(message: ServerMessageView) -> Seq<char> {
    match message {
        ServerMessageView::Auth { uuid, access_token } => two_texts(
            auth_reply_head(),
            auth_reply_middle(),
            auth_reply_tail(),
            access_token,
            uuid,
        ),
        ServerMessageView::Profiles { profiles } => catalog_frame(profiles),
        ServerMessageView::ProfileResources { list } => one_list(
            resources_reply_head(),
            resources_reply_tail(),
            list,
        ),
        ServerMessageView::Error { msg } => one_text(error_reply_head(), error_reply_tail(), msg),
    }
}

/// The answer that a text is the frame of, if it is the frame of one.
pub open spec fn server_unwire(text: Seq<char>) -> Option<ServerMessageView> {
    if exists|message: ServerMessageView| server_wire(message) == text {
        Some(choose|message: ServerMessageView| server_wire(message) == text)
    } else {
        None
    }
}

/// The answer that a text is read as: the one whose frame it is, or else
/// the one whose frame it is written back as.
pub open spec fn server_read(text: Seq<char>) -> Option<ServerMessageView> {
    match server_unwire(text) {
        Some(message) => Some(message),
        None => match json_rewritten(text) {
            Some(written) => server_unwire(written),
            None => None,
        },
    }
}

/// The catalog of a frame of a catalog.
pub open spec fn parse_catalog_frame(input: Seq<char>) -> Option<Seq<ProfileSummaryView>> {
    if !at(input, 0, profiles_reply_head()) {
        None
    } else {
        match uncatalog(input, profiles_reply_head().len() as int) {
            Some((profiles, end)) => if at(input, end, profiles_reply_tail()) && end
                + profiles_reply_tail().len() == input.len() {
                Some(profiles)
            } else {
                None
            },
            None => None,
        }
    }
}

proof fn lemma_catalog_frame_exact(input: Seq<char>, profiles: Seq<ProfileSummaryView>)
    ensures
        parse_catalog_frame(input) == Some(profiles) <==> input == catalog_frame(profiles),
{
    let head = profiles_reply_head();
    let start = head.len() as int;
    let end = start + catalog_text(profiles).len();
    lemma_uncatalog_exact(input, start, profiles, end);
    lemma_at_split(input, 0, head + catalog_text(profiles), profiles_reply_tail());
    lemma_at_split(input, 0, head, catalog_text(profiles));
    if parse_catalog_frame(input) == Some(profiles) {
        let (found, found_end) = uncatalog(input, start).unwrap();
        lemma_uncatalog_exact(input, start, found, found_end);
        assert(input.subrange(0, input.len() as int) =~= input);
    }
    if input == catalog_frame(profiles) {
        assert(input.subrange(0, input.len() as int) =~= input);
    }
}

proof fn lemma_reply_kinds_differ(a: ServerMessageView, b: ServerMessageView)
    requires
        server_wire(a) == server_wire(b),
    ensures
        a is Auth <==> b is Auth,
        a is Profiles <==> b is Profiles,
        a is ProfileResources <==> b is ProfileResources,
        a is Error <==> b is Error,
{
    reveal_strlit("{\"accessToken\":");
    reveal_strlit("{\"profiles\":");
    reveal_strlit("{\"list\":");
    reveal_strlit("{\"msg\":");
    let text = server_wire(a);
    assert(a is Auth ==> text[2] == 'a');
    assert(a is Profiles ==> text[2] == 'p');
    assert(a is ProfileResources ==> text[2] == 'l');
    assert(a is Error ==> text[2] == 'm');
    let other = server_wire(b);
    assert(b is Auth ==> other[2] == 'a');
    assert(b is Profiles ==> other[2] == 'p');
    assert(b is ProfileResources ==> other[2] == 'l');
    assert(b is Error ==> other[2] == 'm');
}

/// Two answers with one frame are one answer.
pub proof fn lemma_server_wire_injective(a: ServerMessageView, b: ServerMessageView)
    requires
        server_wire(a) == server_wire(b),
    ensures
        a == b,
{
    lemma_reply_kinds_differ(a, b);
    let text = server_wire(a);
    match a {
        ServerMessageView::Auth { uuid, access_token } => {
            lemma_two_texts_exact(
                text,
                auth_reply_head(),
                auth_reply_middle(),
                auth_reply_tail(),
                access_token,
                uuid,
            );
            lemma_two_texts_exact(
                text,
                auth_reply_head(),
                auth_reply_middle(),
                auth_reply_tail(),
                b->access_token,
                b->uuid,
            );
        },
        ServerMessageView::Profiles { profiles } => {
            lemma_catalog_frame_exact(text, profiles);
            lemma_catalog_frame_exact(text, b->profiles);
        },
        ServerMessageView::ProfileResources { list } => {
            lemma_one_list_exact(text, resources_reply_head(), resources_reply_tail(), list);
            lemma_one_list_exact(text, resources_reply_head(), resources_reply_tail(), b->list);
        },
        ServerMessageView::Error { msg } => {
            lemma_one_text_exact(text, error_reply_head(), error_reply_tail(), msg);
            lemma_one_text_exact(text, error_reply_head(), error_reply_tail(), b->msg);
        },
    }
}

/// Writing an answer and reading the frame gives the answer back, whatever
/// the answer is.
pub proof fn lemma_server_round_trip(message: ServerMessageView)
    ensures
        server_unwire(server_wire(message)) == Some(message),
        server_read(server_wire(message)) == Some(message),
{
    let text = server_wire(message);
    let found = choose|found: ServerMessageView| server_wire(found) == text;
    lemma_server_wire_injective(found, message);
}

/// Writes an answer as its frame.
pub fn encode_server_message(message: &ServerMessage) -> (r: String)
    ensures
        r@ == server_wire(message@),
{
    match message {
        ServerMessage::Auth(auth) => write_two_texts(
            "{\"accessToken\":",
            ",\"type\":\"auth\",\"uuid\":",
            "}",
            auth.access_token.as_str(),
            auth.uuid.as_str(),
        ),
        ServerMessage::Profiles(catalog) => {
            let mut out = String::from_str("{\"profiles\":");
            push_catalog(&mut out, &catalog.profiles);
            out.append(",\"type\":\"profiles\"}");
            out
        },
        ServerMessage::ProfileResources(resources) => write_one_list(
            "{\"list\":",
            ",\"type\":\"profileResources\"}",
            &resources.list,
        ),
        ServerMessage::Error(error) => write_one_text(
            "{\"msg\":",
            ",\"type\":\"error\"}",
            error.msg.as_str(),
        ),
    }
}

/// Reads the frame of a catalog.
fn read_catalog_frame(input: &Vec<char>) -> (r: Option<ProfilesResponse>)
    ensures
        match r {
            Some(catalog) => parse_catalog_frame(input@) == Some(summaries_view(catalog.profiles@)),
            None => parse_catalog_frame(input@) is None,
        },
{
    let start = match expect(input, 0, "{\"profiles\":") {
        Some(start) => start,
        None => {
            return None;
        },
    };
    let (profiles, end) = match read_catalog(input, start) {
        Some(found) => found,
        None => {
            return None;
        },
    };
    match expect(input, end, ",\"type\":\"profiles\"}") {
        Some(last) => if last == input.len() {
            Some(ProfilesResponse { profiles })
        } else {
            None
        },
        None => None,
    }
}

/// Reads a frame as the answer whose frame it is. A text that is not the
/// frame of an answer gives nothing.
pub fn decode_server_message(text: &str) -> (r: Option<ServerMessage>)
    ensures
        match r {
            Some(message) => text@ == server_wire(message@),
            None => forall|message: ServerMessageView| text@ != #[trigger] server_wire(message),
        },
        match r {
            Some(message) => server_unwire(text@) == Some(message@),
            None => server_unwire(text@) is None,
        },
{
    let input = chars_of(text);
    let auth = read_two_texts(&input, "{\"accessToken\":", ",\"type\":\"auth\",\"uuid\":", "}");
    if let Some((access_token, uuid)) = auth {
        let message = ServerMessage::Auth(AuthResponse { uuid, access_token });
        proof {
            lemma_two_texts_exact(
                input@,
                auth_reply_head(),
                auth_reply_middle(),
                auth_reply_tail(),
                message@->access_token,
                message@->uuid,
            );
            lemma_server_round_trip(message@);
        }
        return Some(message);
    }
    let error = read_one_text(&input, "{\"msg\":", ",\"type\":\"error\"}");
    if let Some(msg) = error {
        let message = ServerMessage::Error(Error { msg });
        proof {
            lemma_one_text_exact(input@, error_reply_head(), error_reply_tail(), message@->msg);
            lemma_server_round_trip(message@);
        }
        return Some(message);
    }
    let resources = read_one_list(&input, "{\"list\":", ",\"type\":\"profileResources\"}");
    if let Some(list) = resources {
        let message = ServerMessage::ProfileResources(ProfileResourcesResponse { list });
        proof {
            lemma_one_list_exact(
                input@,
                resources_reply_head(),
                resources_reply_tail(),
                message@->list,
            );
            lemma_server_round_trip(message@);
        }
        return Some(message);
    }
    let catalog = read_catalog_frame(&input);
    if let Some(profiles) = catalog {
        let message = ServerMessage::Profiles(profiles);
        proof {
            lemma_catalog_frame_exact(input@, message@->profiles);
            lemma_server_round_trip(message@);
        }
        return Some(message);
    }
    proof {
        assert forall|message: ServerMessageView| text@ != #[trigger] server_wire(message) by {
            match message {
                ServerMessageView::Auth { uuid, access_token } => {
                    lemma_two_texts_exact(
                        input@,
                        auth_reply_head(),
                        auth_reply_middle(),
                        auth_reply_tail(),
                        access_token,
                        uuid,
                    );
                },
                ServerMessageView::Profiles { profiles } => {
                    lemma_catalog_frame_exact(input@, profiles);
                },
                ServerMessageView::ProfileResources { list } => {
                    lemma_one_list_exact(input@, resources_reply_head(), resources_reply_tail(), list);
                },
                ServerMessageView::Error { msg } => {
                    lemma_one_text_exact(input@, error_reply_head(), error_reply_tail(), msg);
                },
            }
        }
    }
    None
}

/// Reads a text as an answer: as the answer whose frame it is, or else as
/// the answer whose frame `serde_json` writes it back as.
pub fn read_server_message(text: &str) -> (r: Option<ServerMessage>)
    ensures
        match r {
            Some(message) => server_read(text@) == Some(message@),
            None => server_read(text@) is None,
        },
{
    match decode_server_message(text) {
        Some(message) => Some(message),
        None => match rewrite_json(text) {
            Some(written) => decode_server_message(written.as_str()),
            None => None,
        },
    }
}

} // verus!
