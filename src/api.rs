//! The data exchanged with the remote account service. The requests
//! themselves are made outside the library.

use vstd::prelude::*;

verus! {

/// The service's answer to an API-key check.
pub struct VerifyResponse {
    pub valid: bool,
    pub username: String,
    /// `default_server()` where the answer names none.
    pub server_location: String,
}

/// A server that tunnels can be generated for.
pub struct Server {
    pub code: String,
    pub name: String,
    pub ip: String,
    pub udp_port: u16,
    pub tcp_port: u16,
}

/// A request for a new tunnel definition.
pub struct GenerateRequest {
    pub username: String,
    pub password: String,
    pub server_code: String,
    pub protocol: String,
    pub expiry_days: Option<i32>,
}

/// The server location assumed where the service names none.
pub fn default_server() -> (r: String)
    ensures
        r@ == "sg"@,
{
    "sg".to_string()
}

} // verus!
