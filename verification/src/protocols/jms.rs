//! JMS messages and connections (not implemented yet: connecting and
//! messaging fail).
use vstd::prelude::*;
use crate::string_map::StringMap;
use crate::protocols::{ProtocolError, fail_with};
use crate::text::{lossy_text, utf8_lossy};

verus! {

/// Creates JMS connections to a broker.
pub struct JmsConnectionFactory {
    pub broker_url: String,
    pub username: Option<String>,
    pub password: Option<String>,
}

impl JmsConnectionFactory {
    /// A factory for `broker_url` without credentials.
    pub fn new(broker_url: String) -> (r: Self)
        ensures
            r.broker_url == broker_url,
            r.username is None,
            r.password is None,
    {
        JmsConnectionFactory { broker_url, username: None, password: None }
    }

    /// The factory with credentials.
    pub fn with_credentials(self, username: String, password: String) -> (r: Self)
        ensures
            r.broker_url == self.broker_url,
            r.username == Some(username),
            r.password == Some(password),
    {
        let mut s = self;
        s.username = Some(username);
        s.password = Some(password);
        s
    }

    /// Connecting is not implemented: always fails.
    pub fn create_connection(&self) -> (r: Result<JmsConnection, ProtocolError>)
        ensures
            r matches Err(e) && e.message@ == "JMS protocol not yet fully implemented"@,
    {
        Err(fail_with("JMS protocol not yet fully implemented"))
    }
}

/// A JMS connection.
pub struct JmsConnection {}

impl JmsConnection {
    /// Sessions are not implemented: always fails.
    pub fn create_session(&self) -> (r: Result<JmsSession, ProtocolError>)
        ensures
            r matches Err(e) && e.message@ == "JMS session creation not yet implemented"@,
    {
        Err(fail_with("JMS session creation not yet implemented"))
    }

    /// Closes the connection.
    pub fn close(&mut self) -> (r: Result<(), ProtocolError>)
        ensures
            r is Ok,
    {
        Ok(())
    }
}

/// A JMS session.
pub struct JmsSession {}

impl JmsSession {
    /// Sending is not implemented: always fails.
    pub fn send_to_queue(&self, queue_name: &str, message: JmsMessage) -> (r: Result<
        (),
        ProtocolError,
    >)
        ensures
            r matches Err(e) && e.message@ == "JMS send not yet implemented"@,
    {
        Err(fail_with("JMS send not yet implemented"))
    }

    /// Sending is not implemented: always fails.
    pub fn send_to_topic(&self, topic_name: &str, message: JmsMessage) -> (r: Result<
        (),
        ProtocolError,
    >)
        ensures
            r matches Err(e) && e.message@ == "JMS send not yet implemented"@,
    {
        Err(fail_with("JMS send not yet implemented"))
    }

    /// Receiving is not implemented: always fails.
    pub fn receive_from_queue(&self, queue_name: &str, timeout_ms: u64) -> (r: Result<
        Option<JmsMessage>,
        ProtocolError,
    >)
        ensures
            r matches Err(e) && e.message@ == "JMS receive not yet implemented"@,
    {
        Err(fail_with("JMS receive not yet implemented"))
    }

    /// Subscribing is not implemented: always fails.
    pub fn subscribe_to_topic(&self, topic_name: &str) -> (r: Result<(), ProtocolError>)
        ensures
            r matches Err(e) && e.message@ == "JMS subscribe not yet implemented"@,
    {
        Err(fail_with("JMS subscribe not yet implemented"))
    }
}

/// JMS message kinds.
#[derive(Debug, Clone, Copy, PartialEq, Eq, Structural)]
pub enum JmsMessageType {
    Text,
    Bytes,
    Object,
    /// A map of named values (JMS `MapMessage`).
    MapMessage,
}

/// A JMS message.
pub struct JmsMessage {
    pub body: String,
    pub properties: StringMap,
    pub message_type: JmsMessageType,
}

impl JmsMessage {
    /// A text message without properties.
    pub fn text(body: String) -> (r: Self)
        ensures
            r.body == body,
            r.properties@ == Map::<Seq<char>, Seq<char>>::empty(),
            r.message_type == JmsMessageType::Text,
    {
        JmsMessage { body, properties: StringMap::new(), message_type: JmsMessageType::Text }
    }

    /// A bytes message without properties; its body is the bytes read as
    /// UTF-8, invalid sequences replaced.
    pub fn bytes(data: Vec<u8>) -> (r: Self)
        ensures
            r.body@ == lossy_text(data@),
            r.properties@ == Map::<Seq<char>, Seq<char>>::empty(),
            r.message_type == JmsMessageType::Bytes,
    {
        JmsMessage {
            body: utf8_lossy(data.as_slice()),
            properties: StringMap::new(),
            message_type: JmsMessageType::Bytes,
        }
    }

    /// The message with a property set.
    pub fn with_property(self, key: String, value: String) -> (r: Self)
        ensures
            r.body == self.body,
            r.properties@ == self.properties@.insert(key@, value@),
            r.message_type == self.message_type,
    {
        let mut s = self;
        s.properties.insert(key, value);
        s
    }
}

} // verus!
