//! WebSocket clients (not implemented yet: connecting and messaging fail).
use vstd::prelude::*;
use crate::string_map::StringMap;
use crate::protocols::{ProtocolError, fail_with};

verus! {

/// A WebSocket client.
pub struct WsClient {
    pub url: String,
    pub headers: StringMap,
}

impl WsClient {
    /// A client for `url` with no headers.
    pub fn new(url: String) -> (r: Self)
        ensures
            r.url == url,
            r.headers@ == Map::<Seq<char>, Seq<char>>::empty(),
    {
        WsClient { url, headers: StringMap::new() }
    }

    /// The client with its headers replaced by `headers`.
    pub fn with_headers(self, headers: StringMap) -> (r: Self)
        ensures
            r.url == self.url,
            r.headers@ == headers@,
    {
        let mut s = self;
        s.headers = headers;
        s
    }

    /// Connecting is not implemented: always fails.
    pub fn connect(&self) -> (r: Result<WsConnection, ProtocolError>)
        ensures
            r matches Err(e) && e.message@ == "WebSocket protocol not yet fully implemented"@,
    {
        Err(fail_with("WebSocket protocol not yet fully implemented"))
    }
}

/// A WebSocket connection.
pub struct WsConnection {}

impl WsConnection {
    /// Sending is not implemented: always fails.
    pub fn send_text(&mut self, message: String) -> (r: Result<(), ProtocolError>)
        ensures
            r matches Err(e) && e.message@ == "WebSocket send not yet implemented"@,
    {
        Err(fail_with("WebSocket send not yet implemented"))
    }

    /// Sending is not implemented: always fails.
    pub fn send_binary(&mut self, data: Vec<u8>) -> (r: Result<(), ProtocolError>)
        ensures
            r matches Err(e) && e.message@ == "WebSocket send not yet implemented"@,
    {
        Err(fail_with("WebSocket send not yet implemented"))
    }

    /// Receiving is not implemented: always fails.
    pub fn receive(&mut self) -> (r: Result<WsMessage, ProtocolError>)
        ensures
            r matches Err(e) && e.message@ == "WebSocket receive not yet implemented"@,
    {
        Err(fail_with("WebSocket receive not yet implemented"))
    }

    /// Closes the connection.
    pub fn close(&mut self) -> (r: Result<(), ProtocolError>)
        ensures
            r is Ok,
    {
        Ok(())
    }
}

/// A WebSocket message.
pub enum WsMessage {
    Text(String),
    Binary(Vec<u8>),
    Close,
}

} // verus!
