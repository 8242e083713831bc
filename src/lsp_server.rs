//! A language server seen from the outside: the requests a caller can send
//! it, and a stand-in that answers with fixed replies.

use vstd::prelude::*;

verus! {

/// std's I/O error, carried through as it is.
#[verifier::external_type_specification]
#[verifier::external_body]
pub struct ExIoError(std::io::Error);

/// The requests that can be sent to a language server.
pub trait LspServer {
    /// The server's reply to a hover request at a position, as JSON text.
    fn send_hover(&mut self, file_uri: &str, line: u32, character: u32) -> String;

    /// The server's reply to a completion request at a position, as JSON text.
    fn send_completion(&mut self, file_uri: &str, line: u32, character: u32) -> String;

    /// The server's reply to a semantic-tokens request, as JSON text.
    fn send_semantic_tokens(&mut self, file_uri: &str) -> String;

    /// Sends a framed notification; no reply comes.
    fn send_notification(&mut self, notification: &str) -> Result<(), std::io::Error>;
}

/// A language server that answers every request with a fixed reply.
pub struct MockLspServer;

impl MockLspServer {
    pub fn new() -> (r: Self)
        ensures
            r == MockLspServer,
    {
        MockLspServer
    }
}

impl LspServer for MockLspServer {
    fn send_hover(&mut self, _file_uri: &str, _line: u32, _character: u32) -> String {
        "{\"jsonrpc\": \"2.0\", \"id\": 1, \"result\": {\"contents\": {\"kind\": \"markdown\", \"value\": \"Mock hover info\"}}}".to_owned()
    }

    fn send_completion(&mut self, _file_uri: &str, _line: u32, _character: u32) -> String {
        "{\"jsonrpc\": \"2.0\", \"id\": 2, \"result\": {\"items\": [{\"label\": \"mock_function\", \"kind\": 3, \"detail\": \"Mock function\"}]}}".to_owned()
    }

    fn send_semantic_tokens(&mut self, _file_uri: &str) -> String {
        "{\"jsonrpc\": \"2.0\", \"id\": 3, \"result\": {\"data\": [0, 0, 4, 0, 0]}}".to_owned()
    }

    fn send_notification(&mut self, _notification: &str) -> Result<(), std::io::Error> {
        Ok(())
    }
}

} // verus!
