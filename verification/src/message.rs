//! The messages of a session: what a client asks and what the server
//! answers.

use vstd::prelude::*;
use crate::text::texts;

verus! {

/// A request to log in. The password travels encrypted.
#[derive(Clone, Debug)]
pub struct AuthMessage {
    pub login: String,
    pub password: String,
}

/// A request for the catalog of profiles.
#[derive(Clone, Debug)]
pub struct ProfilesMessage {}

/// A request for the list of files of one profile.
#[derive(Clone, Debug)]
pub struct ProfileResourcesMessage {
    pub profile: String,
}

/// What a client can ask.
#[derive(Clone, Debug)]
pub enum ClientMessage {
    Auth(AuthMessage),
    Profiles(ProfilesMessage),
    ProfileResources(ProfileResourcesMessage),
}

/// What a request says.
pub enum ClientMessageView {
    Auth { login: Seq<char>, password: Seq<char> },
    Profiles,
    ProfileResources { profile: Seq<char> },
}

impl View for ClientMessage {
    type V = ClientMessageView;

    open spec fn view(&self) -> ClientMessageView {
        match self {
            ClientMessage::Auth(auth) => ClientMessageView::Auth {
                login: auth.login@,
                password: auth.password@,
            },
            ClientMessage::Profiles(_) => ClientMessageView::Profiles,
            ClientMessage::ProfileResources(resources) => ClientMessageView::ProfileResources {
                profile: resources.profile@,
            },
        }
    }
}

/// The answer to a successful log-in.
#[derive(Clone, Debug)]
pub struct AuthResponse {
    pub uuid: String,
    pub access_token: String,
}

/// One profile of the catalog: its name, its version, and the names of the
/// optional features that a user can see.
#[derive(Clone, Debug)]
pub struct ProfileSummary {
    pub name: String,
    pub version: String,
    pub optionals: Vec<String>,
}

/// What a profile summary says.
pub struct ProfileSummaryView {
    pub name: Seq<char>,
    pub version: Seq<char>,
    pub optionals: Seq<Seq<char>>,
}

impl View for ProfileSummary {
    type V = ProfileSummaryView;

    open spec fn view(&self) -> ProfileSummaryView {
        ProfileSummaryView {
            name: self.name@,
            version: self.version@,
            optionals: texts(self.optionals@),
        }
    }
}

/// A list of summaries as what they say.
pub open spec fn summaries_view(list: Seq<ProfileSummary>) -> Seq<ProfileSummaryView> {
    list.map_values(|summary: ProfileSummary| summary@)
}

/// The catalog of profiles.
#[derive(Clone, Debug)]
pub struct ProfilesResponse {
    pub profiles: Vec<ProfileSummary>,
}

/// The files of one profile, by path.
#[derive(Clone, Debug)]
pub struct ProfileResourcesResponse {
    pub list: Vec<String>,
}

/// The answer to a request that failed, with a message for the user.
#[derive(Clone, Debug)]
pub struct Error {
    pub msg: String,
}

/// What the server can answer.
#[derive(Clone, Debug)]
pub enum ServerMessage {
    Auth(AuthResponse),
    Profiles(ProfilesResponse),
    ProfileResources(ProfileResourcesResponse),
    Error(Error),
}

/// What an answer says.
pub enum ServerMessageView {
    Auth { uuid: Seq<char>, access_token: Seq<char> },
    Profiles { profiles: Seq<ProfileSummaryView> },
    ProfileResources { list: Seq<Seq<char>> },
    Error { msg: Seq<char> },
}

impl View for ServerMessage {
    type V = ServerMessageView;

    open spec fn view(&self) -> ServerMessageView {
        match self {
            ServerMessage::Auth(auth) => ServerMessageView::Auth {
                uuid: auth.uuid@,
                access_token: auth.access_token@,
            },
            ServerMessage::Profiles(catalog) => ServerMessageView::Profiles {
                profiles: summaries_view(catalog.profiles@),
            },
            ServerMessage::ProfileResources(resources) => ServerMessageView::ProfileResources {
                list: texts(resources.list@),
            },
            ServerMessage::Error(error) => ServerMessageView::Error { msg: error.msg@ },
        }
    }
}

} // verus!
