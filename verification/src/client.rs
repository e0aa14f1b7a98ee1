//! The configuration of a client.

use vstd::prelude::*;
use vstd::string::StringExecFns;
use crate::text::{decimal, push_decimal};

verus! {

/// Where the server is and how it is verified: its address and port, the name
/// that its certificate must carry, the file of the CA certificate, and
/// whether calls are logged for debugging.
#[derive(Debug)]
pub struct ClientConfig {
    pub cert_file: String,
    pub addr: String,
    pub port: u16,
    pub domain: String,
    pub debug: bool,
}

impl ClientConfig {
    /// The address to connect to: the server's address, a colon, the port.
    pub open spec fn endpoint_text(&self) -> Seq<char> {
        self.addr@ + ":"@ + decimal(self.port as nat)
    }

    /// The address to connect to.
    pub fn endpoint(&self) -> (endpoint: String)
        ensures
            endpoint@ == self.endpoint_text(),
    {
        let mut endpoint = String::from_str(self.addr.as_str());
        endpoint.append(":");
        push_decimal(&mut endpoint, self.port as u64);
        endpoint
    }
}

} // verus!
