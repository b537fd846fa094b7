use vstd::prelude::*;

verus! {

/// What a game server advertises under its `info` endpoint, as far as the
/// launcher reads it.
#[derive(Debug)]
pub struct ServerInfo {
    pub connect_address: Option<String>,
    pub build_information: Option<ServerBuildInformation>,
    pub auth_information: ServerAuthInformation,
    pub desc: Option<String>,
    pub privacy_policy: Option<ServerPrivacyPolicyInfo>,
}

/// The server's authentication requirements.
#[derive(Debug)]
pub struct ServerAuthInformation {
    pub mode: AuthMode,
    pub public_key: String,
}

/// The build descriptor: where the client content and engine come from and
/// what they must hash to.
#[derive(Debug)]
pub struct ServerBuildInformation {
    pub download_url: Option<String>,
    pub manifest_url: Option<String>,
    pub manifest_download_url: Option<String>,
    pub engine_version: String,
    pub version: String,
    pub fork_id: String,
    pub hash: Option<String>,
    pub manifest_hash: Option<String>,
    pub acz: bool,
}

#[derive(Debug, Clone, Copy, PartialEq, Eq, Structural)]
pub enum AuthMode {
    Optional,
    Required,
    Disabled,
}

/// A privacy policy the server asks the player to accept.
#[derive(Debug)]
pub struct ServerPrivacyPolicyInfo {
    pub link: String,
    pub identifier: String,
    pub version: String,
}

} // verus!
