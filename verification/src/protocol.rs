//! The data of the initialize handshake between an editor (the client) and
//! the server.
use vstd::prelude::*;

verus! {

#[verifier::external_type_specification]
#[verifier::external_body]
pub struct ExJsonValue(serde_json::Value);

/// The parameters of the `initialize` request.
#[derive(Debug, PartialEq, Clone)]
pub struct InitializeParams {
    /// The process id of the parent process that started the server, if any.
    pub process_id: Option<u32>,
    /// Initialization options given by the user.
    pub initialization_options: Option<serde_json::Value>,
    /// Information about the client.
    pub client_info: Option<ClientInfo>,
    /// The locale of the client's user interface (an IETF language tag).
    pub locale: Option<String>,
}

impl Default for InitializeParams {
    fn default() -> (r: InitializeParams)
        ensures
            r.process_id is None,
            r.initialization_options is None,
            r.client_info is None,
            r.locale is None,
    {
        InitializeParams {
            process_id: None,
            initialization_options: None,
            client_info: None,
            locale: None,
        }
    }
}

/// The client's name and version.
#[derive(Debug, PartialEq, Clone)]
pub struct ClientInfo {
    pub name: String,
    pub version: Option<String>,
}

/// The answer to `initialize`.
#[derive(Debug, PartialEq, Clone)]
pub struct InitializeResult {
    /// The capabilities the server provides.
    pub capabilities: ServerCapabilities,
    /// Information about the server.
    pub server_info: Option<ServerInfo>,
    /// The position encoding that the server uses, when it says.
    pub offset_encoding: Option<String>,
}

impl Default for InitializeResult {
    fn default() -> (r: InitializeResult)
        ensures
            r.server_info is None,
            r.offset_encoding is None,
    {
        InitializeResult {
            capabilities: ServerCapabilities {  },
            server_info: None,
            offset_encoding: None,
        }
    }
}

/// The server's name and version.
#[derive(Debug, PartialEq, Eq, Clone)]
pub struct ServerInfo {
    pub name: String,
    pub version: Option<String>,
}

impl Default for ServerInfo {
    fn default() -> (r: ServerInfo)
        ensures
            r.name@ == Seq::<char>::empty(),
            r.version is None,
    {
        ServerInfo { name: String::new(), version: None }
    }
}

/// The parameters of the `initialized` notification (none).
#[derive(Debug, PartialEq, Clone, Copy)]
pub struct InitializedParams {}

/// The capabilities the server provides (none so far).
#[derive(Debug, PartialEq, Clone, Default)]
pub struct ServerCapabilities {}

/// The name under which the server introduces itself.
pub open spec fn server_name() -> Seq<char> {
    "saldowsd"@
}

/// The answer that the server gives to `initialize`: its capabilities, its
/// name and the given version, and no position encoding.
pub fn initialize_result(capabilities: ServerCapabilities, version: String) -> (r: InitializeResult)
    ensures
        r.capabilities == capabilities,
        r.server_info matches Some(info) && info.name@ == server_name() && info.version
            == Some(version),
        r.offset_encoding is None,
{
    InitializeResult {
        capabilities,
        server_info: Some(ServerInfo { name: String::from_str("saldowsd"), version: Some(version) }),
        offset_encoding: None,
    }
}

} // verus!
