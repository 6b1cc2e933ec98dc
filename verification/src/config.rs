//! The configuration of a launch server.

use vstd::prelude::*;
use vstd::string::StringExecFns;
use crate::auth::{
    AcceptAuthProvider, AuthProvider, Error, JsonAuthConfig, JsonAuthProvider, SqlAuthConfig,
    SqlAuthProvider,
};

verus! {

/// Where the skins and capes of players are found; `{username}` stands for
/// the player's name.
#[derive(Clone, Debug)]
pub struct TextureProvider {
    pub skin_url: String,
    pub cape_url: String,
}

/// Which backend checks the credentials.
#[derive(Clone, Debug)]
pub enum AuthConfig {
    JSON(JsonAuthConfig),
    SQL(SqlAuthConfig),
    Accept,
}

/// The configuration of a launch server.
#[derive(Clone, Debug)]
pub struct Config {
    pub bind_address: String,
    pub auth: AuthConfig,
    pub texture: TextureProvider,
    pub file_server: String,
    pub websocket_url: String,
    pub project_name: String,
}

/// The backend is the one that the configuration asks for, with the
/// addresses that the configuration gives.
pub open spec fn provider_for(config: AuthConfig, provider: AuthProvider) -> bool {
    match config {
        AuthConfig::JSON(json) => provider matches AuthProvider::Json(backend) && backend.auth_url@
            == json.auth_url@ && backend.entry_url@ == json.entry_url@
            && backend.update_access_token_url@ == json.update_access_token_url@
            && backend.update_server_id_url@ == json.update_server_id_url@,
        AuthConfig::SQL(sql) => provider matches AuthProvider::Sql(backend)
            && backend.connection_url@ == sql.connection_url@,
        AuthConfig::Accept => provider is Accept,
    }
}

impl AuthConfig {
    /// The backend that the configuration asks for.
    pub fn get_provider(&self) -> (r: Result<AuthProvider, Error>)
        ensures
            r matches Ok(provider) && provider_for(*self, provider),
    {
        let provider = match self {
            AuthConfig::JSON(config) => AuthProvider::Json(
                JsonAuthProvider::new(
                    JsonAuthConfig {
                        auth_url: config.auth_url.clone(),
                        entry_url: config.entry_url.clone(),
                        update_access_token_url: config.update_access_token_url.clone(),
                        update_server_id_url: config.update_server_id_url.clone(),
                    },
                ),
            ),
            AuthConfig::SQL(config) => AuthProvider::Sql(
                SqlAuthProvider::new(SqlAuthConfig { connection_url: config.connection_url.clone() }),
            ),
            AuthConfig::Accept => AuthProvider::Accept(AcceptAuthProvider {  }),
        };
        Ok(provider)
    }
}

impl Default for Config {
    /// The configuration of a server that nobody configured: it listens on
    /// the local host and has no backend.
    fn default() -> (r: Config)
        ensures
            r.bind_address@ == "127.0.0.1:8080"@,
            r.auth is Accept,
            r.texture.skin_url@ == "http://example.com/skin/{username}.png"@,
            r.texture.cape_url@ == "http://example.com/cape/{username}.png"@,
            r.file_server@ == "http://127.0.0.1:8080/files"@,
            r.websocket_url@ == "ws://127.0.0.1:8080"@,
            r.project_name@ == "NSL"@,
    {
        Config {
            file_server: String::from_str("http://127.0.0.1:8080/files"),
            bind_address: String::from_str("127.0.0.1:8080"),
            auth: AuthConfig::Accept,
            texture: TextureProvider {
                skin_url: String::from_str("http://example.com/skin/{username}.png"),
                cape_url: String::from_str("http://example.com/cape/{username}.png"),
            },
            websocket_url: String::from_str("ws://127.0.0.1:8080"),
            project_name: String::from_str("NSL"),
        }
    }
}

} // verus!
