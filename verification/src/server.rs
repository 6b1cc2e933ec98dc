//! What the server decides for each request: the answer, or the work that
//! has to be done before there is one.
//!
//! The server reads a frame, lets `dispatch` decide, does the work that the
//! step names (asking the backend, walking a directory), hands the outcome to
//! the function for that outcome, and writes the answer, if there is one. It
//! keeps the list of the tokens that it issued, so that none is issued twice.

use vstd::prelude::*;
use vstd::string::StringExecFns;
use crate::auth::AuthResult;
use crate::codec::{client_read, read_client_message};
use crate::message::{
    summaries_view, AuthMessage, AuthResponse, ClientMessage, ClientMessageView, Error,
    ProfileResourcesMessage, ProfileResourcesResponse, ProfileSummary, ProfileSummaryView,
    ProfilesResponse, ServerMessage, ServerMessageView,
};
use crate::optional::Optional;
use crate::profile::Profile;
use crate::text::{contains_text, texts};
use crate::token::{fresh_access_token, is_token, said, search_finds};
use crate::uuid::Uuid;

verus! {

/// What the server does once the backend has judged a log-in.
#[derive(Clone, Debug)]
pub enum AuthStep {
    /// Store the token for the identity; the answer depends on whether this
    /// succeeds.
    Persist { uuid: Uuid, access_token: String },
    /// Answer at once.
    Reply(ServerMessage),
}

/// The identity of an accepted log-in: the backend judged, gave no message
/// and named the identity.
pub open spec fn accepted_identity(result: Result<AuthResult, crate::auth::Error>) -> Option<Uuid> {
    match result {
        Ok(judged) => if judged.message is None {
            judged.uuid
        } else {
            None
        },
        Err(_) => None,
    }
}

/// What is answered when a backend accepts a log-in and names no identity.
pub open spec fn no_identity() -> Seq<char> {
    "Auth backend gave no identity"@
}

/// What is answered when no token can be found that was not issued before.
pub open spec fn cannot_issue() -> Seq<char> {
    "Can't issue an access token"@
}

/// What is answered to a log-in that is not accepted: the backend's message
/// where it turned the log-in down, a fixed message where it accepted and
/// named no identity, and the message of the failure where it failed.
pub open spec fn refusal(result: Result<AuthResult, crate::auth::Error>) -> Seq<char> {
    match result {
        Ok(judged) => match judged.message {
            Some(message) => message@,
            None => no_identity(),
        },
        Err(failure) => failure.message@,
    }
}

/// The step that follows the backend's judgement, for a given fresh token:
/// an accepted log-in has its token stored for its identity, and every other
/// log-in is answered with an error.
pub open spec fn auth_step_of(
    result: Result<AuthResult, crate::auth::Error>,
    access_token: Seq<char>,
    step: AuthStep,
) -> bool {
    match accepted_identity(result) {
        Some(identity) => step matches AuthStep::Persist { uuid, access_token: token } && uuid
            == identity && token@ == access_token,
        None => step matches AuthStep::Reply(ServerMessage::Error(error)) && error.msg@
            == refusal(result),
    }
}

/// The step that follows the backend's judgement, with `access_token` as the
/// token of an accepted log-in.
pub fn auth_step_with_token(
    result: Result<AuthResult, crate::auth::Error>,
    access_token: String,
) -> (step: AuthStep)
    ensures
        auth_step_of(result, access_token@, step),
{
    match result {
        Ok(judged) => match judged.message {
            None => match judged.uuid {
                Some(uuid) => AuthStep::Persist { uuid, access_token },
                None => AuthStep::Reply(
                    ServerMessage::Error(
                        Error { msg: String::from_str("Auth backend gave no identity") },
                    ),
                ),
            },
            Some(message) => AuthStep::Reply(ServerMessage::Error(Error { msg: message })),
        },
        Err(failure) => AuthStep::Reply(ServerMessage::Error(Error { msg: failure.message })),
    }
}

/// Whether the backend accepted the log-in and named the identity.
fn is_accepted(result: &Result<AuthResult, crate::auth::Error>) -> (r: bool)
    ensures
        r == accepted_identity(*result) is Some,
{
    match result {
        Ok(judged) => judged.message.is_none() && judged.uuid.is_some(),
        Err(_) => false,
    }
}

/// The token that a step has stored, if it has one stored.
pub open spec fn token_in(step: AuthStep) -> Option<Seq<char>> {
    match step {
        AuthStep::Persist { access_token, .. } => Some(access_token@),
        AuthStep::Reply(_) => None,
    }
}

/// The step that follows the backend's judgement. Only an accepted log-in
/// has tokens drawn. The first of them that is none of `issued`, the tokens
/// issued before, is the token of the log-in and is put at the end of
/// `issued`; so no token is issued twice. Only where every token drawn was
/// issued before, which cannot happen while nothing was issued, the log-in
/// is answered with an error. A log-in that gets no token leaves `issued` as
/// it is.
pub fn auth_step(result: Result<AuthResult, crate::auth::Error>, issued: &mut Vec<String>) -> (step:
    AuthStep)
    ensures
        match accepted_identity(result) {
            Some(identity) => {
                &&& exists|drawn: Seq<Seq<char>>|
                    #[trigger] search_finds(drawn, texts(old(issued)@), token_in(step))
                &&& (step matches AuthStep::Persist { uuid, access_token } && uuid == identity
                    && is_token(access_token@) && access_token@.len() == 32 && !texts(
                    old(issued)@,
                ).contains(access_token@) && texts(final(issued)@) == texts(old(issued)@).push(
                    access_token@,
                )) || (step matches AuthStep::Reply(ServerMessage::Error(error)) && error.msg@
                    == cannot_issue() && old(issued)@.len() > 0 && texts(final(issued)@) == texts(
                    old(issued)@,
                ))
            },
            None => step matches AuthStep::Reply(ServerMessage::Error(error)) && error.msg@
                == refusal(result) && texts(final(issued)@) == texts(old(issued)@),
        },
        texts(old(issued)@).no_duplicates() ==> texts(final(issued)@).no_duplicates(),
{
    if is_accepted(&result) {
        let found = fresh_access_token(issued);
        let ghost before = texts(issued@);
        let ghost drawn = choose|drawn: Seq<Seq<char>>| search_finds(drawn, before, said(found));
        match found {
            Some(access_token) => {
                issued.push(access_token.clone());
                proof {
                    let after = texts(issued@);
                    assert(after =~= before.push(access_token@));
                    if before.no_duplicates() {
                        assert forall|a: int, b: int|
                            0 <= a < after.len() && 0 <= b < after.len() && a != b implies after[a]
                            != after[b] by {
                            if a == before.len() {
                                assert(before.contains(before[b]));
                            } else if b == before.len() {
                                assert(before.contains(before[a]));
                            } else {
                                assert(before[a] != before[b]);
                            }
                        }
                    }
                }
                let step = auth_step_with_token(result, access_token);
                assert(search_finds(drawn, before, token_in(step)));
                step
            },
            None => {
                let step = AuthStep::Reply(
                    ServerMessage::Error(
                        Error { msg: String::from_str("Can't issue an access token") },
                    ),
                );
                assert(search_finds(drawn, before, token_in(step)));
                step
            },
        }
    } else {
        auth_step_with_token(result, String::new())
    }
}

/// The answer to a log-in once the token was handed to the backend: the
/// identity and the token if the backend stored it, and no answer if it did
/// not.
pub fn auth_answer(uuid: &Uuid, access_token: String, stored: bool) -> (r: Option<ServerMessage>)
    ensures
        stored ==> (r matches Some(ServerMessage::Auth(auth)) && auth.uuid@ == uuid.text()
            && auth.access_token@ == access_token@),
        !stored ==> r is None,
{
    if stored {
        Some(ServerMessage::Auth(AuthResponse { uuid: uuid.to_hyphenated(), access_token }))
    } else {
        None
    }
}

/// What is answered when a profile is asked for that the server does not
/// have.
pub open spec fn unknown_profile() -> Seq<char> {
    "This profile doesn't exist!"@
}

/// The directory that holds the files of a profile.
pub open spec fn resources_directory(profile: Seq<char>) -> Seq<char> {
    "static/"@ + profile
}

/// What the server does with a request for the files of a profile.
#[derive(Clone, Debug)]
pub enum ResourcesStep {
    /// Collect the path of every regular file below the directory.
    Walk { directory: String },
    /// Answer at once.
    Reply(ServerMessage),
}

/// The step for a request for the files of a profile: the walk of its
/// directory if the server has the profile, an error if it has not.
pub fn resources_step(profiles: &Vec<String>, message: &ProfileResourcesMessage) -> (step:
    ResourcesStep)
    ensures
        match step {
            ResourcesStep::Walk { directory } => texts(profiles@).contains(message.profile@)
                && directory@ == resources_directory(message.profile@),
            ResourcesStep::Reply(answer) => !texts(profiles@).contains(message.profile@)
                && answer@ == (ServerMessageView::Error { msg: unknown_profile() }),
        },
{
    if contains_text(profiles, &message.profile) {
        let mut directory = String::from_str("static/");
        directory.append(message.profile.as_str());
        ResourcesStep::Walk { directory }
    } else {
        ResourcesStep::Reply(
            ServerMessage::Error(Error { msg: String::from_str("This profile doesn't exist!") }),
        )
    }
}

/// The paths of the entries that are regular files, in the order of the
/// entries.
pub open spec fn regular_paths(entries: Seq<(String, bool)>) -> Seq<Seq<char>>
    decreases entries.len(),
{
    if entries.len() == 0 {
        Seq::empty()
    } else {
        let before = regular_paths(entries.drop_last());
        if entries.last().1 {
            before.push(entries.last().0@)
        } else {
            before
        }
    }
}

/// Of the entries that a walk found, each with its path and with whether it
/// is a regular file, the paths of the regular files, in the order of the
/// walk.
pub fn regular_files(entries: &Vec<(String, bool)>) -> (r: Vec<String>)
    ensures
        texts(r@) == regular_paths(entries@),
{
    let mut paths: Vec<String> = Vec::new();
    let mut i: usize = 0;
    assert(entries@.take(0) =~= Seq::<(String, bool)>::empty());
    assert(texts(paths@) =~= regular_paths(entries@.take(0)));
    while i < entries.len()
        invariant
            i <= entries@.len(),
            texts(paths@) == regular_paths(entries@.take(i as int)),
        decreases entries@.len() - i,
    {
        assert(entries@.take(i + 1).drop_last() =~= entries@.take(i as int));
        if entries[i].1 {
            let ghost before = texts(paths@);
            paths.push(entries[i].0.clone());
            assert(texts(paths@) =~= before.push(entries@[i as int].0@));
        }
        i += 1;
    }
    assert(entries@.take(i as int) =~= entries@);
    paths
}

/// The answer to a request for the files of a profile, once they are
/// collected.
pub fn resources_answer(list: Vec<String>) -> (r: ServerMessage)
    ensures
        r@ == (ServerMessageView::ProfileResources { list: texts(list@) }),
{
    ServerMessage::ProfileResources(ProfileResourcesResponse { list })
}

/// The names of the features of `optionals` that a user can see, in order.
pub open spec fn visible_names(optionals: Seq<Optional>) -> Seq<Seq<char>>
    decreases optionals.len(),
{
    if optionals.len() == 0 {
        Seq::empty()
    } else {
        let before = visible_names(optionals.drop_last());
        let last = optionals.last();
        if last.visible && last.name is Some {
            before.push(last.name.unwrap()@)
        } else {
            before
        }
    }
}

/// What the catalog says of one profile.
pub open spec fn summary_of(profile: Profile) -> ProfileSummaryView {
    ProfileSummaryView {
        name: profile.name@,
        version: profile.version@,
        optionals: visible_names(profile.optionals@),
    }
}

/// What the catalog says of a list of profiles.
pub open spec fn catalog_of(profiles: Seq<Profile>) -> Seq<ProfileSummaryView> {
    profiles.map_values(|profile: Profile| summary_of(profile))
}

fn summarize(profile: &Profile) -> (r: ProfileSummary)
    ensures
        r@ == summary_of(*profile),
{
    let mut names: Vec<String> = Vec::new();
    let mut i: usize = 0;
    assert(profile.optionals@.take(0) =~= Seq::<Optional>::empty());
    assert(texts(names@) =~= visible_names(profile.optionals@.take(0)));
    while i < profile.optionals.len()
        invariant
            i <= profile.optionals@.len(),
            texts(names@) == visible_names(profile.optionals@.take(i as int)),
        decreases profile.optionals@.len() - i,
    {
        assert(profile.optionals@.take(i + 1).drop_last() =~= profile.optionals@.take(i as int));
        let optional = &profile.optionals[i];
        if optional.visible {
            if let Some(name) = &optional.name {
                let ghost before = texts(names@);
                names.push(name.clone());
                assert(texts(names@) =~= before.push(name@));
            }
        }
        i += 1;
    }
    assert(profile.optionals@.take(i as int) =~= profile.optionals@);
    ProfileSummary { name: profile.name.clone(), version: profile.version.clone(), optionals: names }
}

/// The answer to a request for the catalog: every profile of the server, in
/// order, with its name, its version and the names of its visible features.
pub fn profiles_answer(catalog: &Vec<Profile>) -> (r: ServerMessage)
    ensures
        r@ == (ServerMessageView::Profiles { profiles: catalog_of(catalog@) }),
{
    let mut profiles: Vec<ProfileSummary> = Vec::new();
    let mut i: usize = 0;
    while i < catalog.len()
        invariant
            i <= catalog@.len(),
            summaries_view(profiles@) == catalog_of(catalog@).take(i as int),
        decreases catalog@.len() - i,
    {
        let ghost before = summaries_view(profiles@);
        profiles.push(summarize(&catalog[i]));
        assert(summaries_view(profiles@) =~= before.push(summary_of(catalog@[i as int])));
        i += 1;
        assert(summaries_view(profiles@) =~= catalog_of(catalog@).take(i as int));
    }
    assert(catalog_of(catalog@).take(i as int) =~= catalog_of(catalog@));
    ServerMessage::Profiles(ProfilesResponse { profiles })
}

/// What the server does with a frame.
#[derive(Clone, Debug)]
pub enum ServerStep {
    /// The frame is no request: nothing is answered and the connection stays
    /// open.
    Ignore,
    /// Decrypt the password and ask the backend for its judgement.
    Authenticate(AuthMessage),
    /// Collect the path of every regular file below the directory.
    Walk { directory: String },
    /// Answer at once.
    Reply(ServerMessage),
}

/// The step that a request asks for, given the profiles that the server has.
pub open spec fn step_for(
    request: ClientMessageView,
    profiles: Seq<Seq<char>>,
    catalog: Seq<Profile>,
    step: ServerStep,
) -> bool {
    match request {
        ClientMessageView::Auth { login, password } => step matches ServerStep::Authenticate(auth)
            && auth.login@ == login && auth.password@ == password,
        ClientMessageView::Profiles => step matches ServerStep::Reply(answer) && answer@ == (
        ServerMessageView::Profiles { profiles: catalog_of(catalog) }),
        ClientMessageView::ProfileResources { profile } => if profiles.contains(profile) {
            step matches ServerStep::Walk { directory } && directory@ == resources_directory(
                profile,
            )
        } else {
            step matches ServerStep::Reply(answer) && answer@ == (ServerMessageView::Error {
                msg: unknown_profile(),
            })
        },
    }
}

/// The step for a request.
pub fn route(request: ClientMessage, profiles: &Vec<String>, catalog: &Vec<Profile>) -> (step:
    ServerStep)
    ensures
        step_for(request@, texts(profiles@), catalog@, step),
{
    match request {
        ClientMessage::Auth(auth) => ServerStep::Authenticate(auth),
        ClientMessage::Profiles(_) => ServerStep::Reply(profiles_answer(catalog)),
        ClientMessage::ProfileResources(resources) => match resources_step(profiles, &resources) {
            ResourcesStep::Walk { directory } => ServerStep::Walk { directory },
            ResourcesStep::Reply(answer) => ServerStep::Reply(answer),
        },
    }
}

/// The step for a frame: that of the request that it is read as, and none
/// where it is read as no request.
pub fn dispatch(frame: &str, profiles: &Vec<String>, catalog: &Vec<Profile>) -> (step: ServerStep)
    ensures
        match client_read(frame@) {
            Some(request) => step_for(request, texts(profiles@), catalog@, step),
            None => step is Ignore,
        },
{
    match read_client_message(frame) {
        Some(request) => route(request, profiles, catalog),
        None => ServerStep::Ignore,
    }
}

} // verus!
