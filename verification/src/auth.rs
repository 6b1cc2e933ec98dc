//! The interface to the backends that check credentials, and the backend
//! that stands in where none is configured.

use vstd::prelude::*;
use vstd::string::StringExecFns;
use crate::uuid::Uuid;
use crate::wire::{push_quoted, quoted};

verus! {

/// What a backend holds of one player.
#[derive(Clone, Debug)]
pub struct Entry {
    pub access_token: Option<String>,
    pub server_id: Option<String>,
    pub uuid: Uuid,
    pub username: String,
}

/// What a backend says of a log-in that it could judge: with a message the
/// credentials were turned down, without one the identity is given.
#[derive(Clone, Debug)]
pub struct AuthResult {
    pub uuid: Option<Uuid>,
    pub message: Option<String>,
}

/// A backend could not be reached or understood.
#[derive(Clone, Debug)]
pub struct Error {
    pub message: String,
}

/// What a backend can be asked.
pub trait AuthProvide {
    fn auth(&self, login: &String, password: &String, ip: &String) -> Result<AuthResult, Error>;

    fn get_entry(&self, uuid: &Uuid) -> Result<Entry, Error>;

    fn get_entry_from_name(&self, username: &String) -> Result<Entry, Error>;

    /// Stores a new access token; the result says whether it was stored.
    fn update_access_token(&self, uuid: &Uuid, token: &String) -> bool;

    /// Stores a new server session id; the result says whether it was stored.
    fn update_server_id(&self, uuid: &Uuid, server_id: &String) -> bool;
}

/// The backend of a server that has none configured. It knows nobody and
/// stores nothing: every question is answered with a failure.
#[derive(Clone, Copy, Debug, Default)]
pub struct AcceptAuthProvider {}

/// What the stand-in backend answers.
pub open spec fn no_backend_message() -> Seq<char> {
    "No auth backend is configured"@
}

fn no_backend() -> (r: Error)
    ensures
        r.message@ == no_backend_message(),
{
    Error { message: String::from_str("No auth backend is configured") }
}

impl AuthProvide for AcceptAuthProvider {
    fn auth(&self, login: &String, password: &String, ip: &String) -> (r: Result<AuthResult, Error>)
        ensures
            r matches Err(error) && error.message@ == no_backend_message(),
    {
        Err(no_backend())
    }

    fn get_entry(&self, uuid: &Uuid) -> (r: Result<Entry, Error>)
        ensures
            r matches Err(error) && error.message@ == no_backend_message(),
    {
        Err(no_backend())
    }

    fn get_entry_from_name(&self, username: &String) -> (r: Result<Entry, Error>)
        ensures
            r matches Err(error) && error.message@ == no_backend_message(),
    {
        Err(no_backend())
    }

    fn update_access_token(&self, uuid: &Uuid, token: &String) -> (r: bool)
        ensures
            !r,
    {
        false
    }

    fn update_server_id(&self, uuid: &Uuid, server_id: &String) -> (r: bool)
        ensures
            !r,
    {
        false
    }
}

/// How one exchange with a backend over HTTP ended.
#[derive(Clone, Debug)]
pub enum Fetched<T> {
    /// The backend was not reached.
    Unreachable,
    /// An answer came that could not be read.
    Unreadable,
    /// The answer.
    Value(T),
}

/// What is reported when the backend was not reached.
pub open spec fn cannot_connect() -> Seq<char> {
    "Can't connect"@
}

/// What is reported when the answer could not be read.
pub open spec fn cannot_parse() -> Seq<char> {
    "Can't parse json"@
}

/// The result of an exchange as callers of a backend see it: the answer, or
/// one of two errors.
pub fn fetched_result<T>(fetched: Fetched<T>) -> (r: Result<T, Error>)
    ensures
        match fetched {
            Fetched::Value(value) => r == Ok::<T, Error>(value),
            Fetched::Unreachable => r matches Err(error) && error.message@ == cannot_connect(),
            Fetched::Unreadable => r matches Err(error) && error.message@ == cannot_parse(),
        },
{
    match fetched {
        Fetched::Value(value) => Ok(value),
        Fetched::Unreachable => Err(Error { message: String::from_str("Can't connect") }),
        Fetched::Unreadable => Err(Error { message: String::from_str("Can't parse json") }),
    }
}

/// Where the backend that is asked over HTTP listens.
#[derive(Clone, Debug)]
pub struct JsonAuthConfig {
    pub auth_url: String,
    pub entry_url: String,
    pub update_access_token_url: String,
    pub update_server_id_url: String,
}

/// Where the relational store of a backend is reached.
#[derive(Clone, Debug)]
pub struct SqlAuthConfig {
    pub connection_url: String,
}

/// The backend that is asked over HTTP: every question is a JSON object
/// posted to one of four addresses.
#[derive(Clone, Debug)]
pub struct JsonAuthProvider {
    pub auth_url: String,
    pub entry_url: String,
    pub update_access_token_url: String,
    pub update_server_id_url: String,
}

/// The backend that asks a relational store.
#[derive(Clone, Debug)]
pub struct SqlAuthProvider {
    pub connection_url: String,
}

/// What is posted to a backend, and where.
#[derive(Clone, Debug)]
pub struct HttpRequest {
    pub url: String,
    pub body: String,
}

/// The question whether a log-in is good: the address of the client, the
/// password and the login, under keys in alphabetical order.
pub open spec fn auth_body(login: Seq<char>, password: Seq<char>, ip: Seq<char>) -> Seq<char> {
    "{\"ip\":"@ + quoted(ip) + ",\"password\":"@ + quoted(password) + ",\"username\":"@ + quoted(
        login,
    ) + "}"@
}

/// The question for the entry of an identity.
pub open spec fn entry_body(uuid: Seq<char>) -> Seq<char> {
    "{\"uuid\":"@ + quoted(uuid) + "}"@
}

/// The question for the entry of a name.
pub open spec fn entry_from_name_body(username: Seq<char>) -> Seq<char> {
    "{\"username\":"@ + quoted(username) + "}"@
}

/// The order to store an access token for an identity.
pub open spec fn update_access_token_body(uuid: Seq<char>, token: Seq<char>) -> Seq<char> {
    "{\"accessToken\":"@ + quoted(token) + ",\"uuid\":"@ + quoted(uuid) + "}"@
}

/// The order to store a server session id for an identity.
pub open spec fn update_server_id_body(uuid: Seq<char>, server_id: Seq<char>) -> Seq<char> {
    "{\"serverId\":"@ + quoted(server_id) + ",\"uuid\":"@ + quoted(uuid) + "}"@
}

impl JsonAuthProvider {
    /// The backend for a configuration.
    pub fn new(config: JsonAuthConfig) -> (r: JsonAuthProvider)
        ensures
            r.auth_url == config.auth_url,
            r.entry_url == config.entry_url,
            r.update_access_token_url == config.update_access_token_url,
            r.update_server_id_url == config.update_server_id_url,
    {
        JsonAuthProvider {
            auth_url: config.auth_url,
            entry_url: config.entry_url,
            update_access_token_url: config.update_access_token_url,
            update_server_id_url: config.update_server_id_url,
        }
    }

    /// What is posted to learn whether a log-in is good.
    pub fn auth_request(&self, login: &String, password: &String, ip: &String) -> (r: HttpRequest)
        ensures
            r.url@ == self.auth_url@,
            r.body@ == auth_body(login@, password@, ip@),
    {
        let mut body = String::from_str("{\"ip\":");
        push_quoted(&mut body, ip.as_str());
        body.append(",\"password\":");
        push_quoted(&mut body, password.as_str());
        body.append(",\"username\":");
        push_quoted(&mut body, login.as_str());
        body.append("}");
        HttpRequest { url: self.auth_url.clone(), body }
    }

    /// What is posted to fetch the entry of an identity.
    pub fn entry_request(&self, uuid: &Uuid) -> (r: HttpRequest)
        ensures
            r.url@ == self.entry_url@,
            r.body@ == entry_body(uuid.text()),
    {
        let mut body = String::from_str("{\"uuid\":");
        push_quoted(&mut body, uuid.to_hyphenated().as_str());
        body.append("}");
        HttpRequest { url: self.entry_url.clone(), body }
    }

    /// What is posted to fetch the entry of a name.
    pub fn entry_from_name_request(&self, username: &String) -> (r: HttpRequest)
        ensures
            r.url@ == self.entry_url@,
            r.body@ == entry_from_name_body(username@),
    {
        let mut body = String::from_str("{\"username\":");
        push_quoted(&mut body, username.as_str());
        body.append("}");
        HttpRequest { url: self.entry_url.clone(), body }
    }

    /// What is posted to store an access token.
    pub fn update_access_token_request(&self, uuid: &Uuid, token: &String) -> (r: HttpRequest)
        ensures
            r.url@ == self.update_access_token_url@,
            r.body@ == update_access_token_body(uuid.text(), token@),
    {
        let mut body = String::from_str("{\"accessToken\":");
        push_quoted(&mut body, token.as_str());
        body.append(",\"uuid\":");
        push_quoted(&mut body, uuid.to_hyphenated().as_str());
        body.append("}");
        HttpRequest { url: self.update_access_token_url.clone(), body }
    }

    /// What is posted to store a server session id.
    pub fn update_server_id_request(&self, uuid: &Uuid, server_id: &String) -> (r: HttpRequest)
        ensures
            r.url@ == self.update_server_id_url@,
            r.body@ == update_server_id_body(uuid.text(), server_id@),
    {
        let mut body = String::from_str("{\"serverId\":");
        push_quoted(&mut body, server_id.as_str());
        body.append(",\"uuid\":");
        push_quoted(&mut body, uuid.to_hyphenated().as_str());
        body.append("}");
        HttpRequest { url: self.update_server_id_url.clone(), body }
    }
}

impl SqlAuthProvider {
    /// The backend for a configuration.
    pub fn new(config: SqlAuthConfig) -> (r: SqlAuthProvider)
        ensures
            r.connection_url == config.connection_url,
    {
        SqlAuthProvider { connection_url: config.connection_url }
    }
}

/// A backend of one of the three kinds.
#[derive(Clone, Debug)]
pub enum AuthProvider {
    Json(JsonAuthProvider),
    Sql(SqlAuthProvider),
    Accept(AcceptAuthProvider),
}

} // verus!
