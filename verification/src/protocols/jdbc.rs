//! JDBC connections (not implemented yet: every database operation fails).
use vstd::prelude::*;
use crate::string_map::StringMap;
use crate::protocols::{ProtocolError, fail_with};

verus! {

/// A JDBC connection description.
pub struct JdbcConnection {
    pub connection_string: String,
    pub username: String,
    pub password: String,
}

impl JdbcConnection {
    pub fn new(connection_string: String, username: String, password: String) -> (r: Self)
        ensures
            r.connection_string == connection_string,
            r.username == username,
            r.password == password,
    {
        JdbcConnection { connection_string, username, password }
    }

    /// Connecting is not implemented: always fails.
    pub fn connect(&self) -> (r: Result<JdbcClient, ProtocolError>)
        ensures
            r matches Err(e) && e.message@ == "JDBC protocol not yet fully implemented"@,
    {
        Err(fail_with("JDBC protocol not yet fully implemented"))
    }
}

/// A JDBC client.
pub struct JdbcClient {}

impl JdbcClient {
    /// Queries are not implemented: always fails.
    pub fn execute_query(&self, sql: &str) -> (r: Result<JdbcResultSet, ProtocolError>)
        ensures
            r matches Err(e) && e.message@ == "JDBC query execution not yet implemented"@,
    {
        Err(fail_with("JDBC query execution not yet implemented"))
    }

    /// Updates are not implemented: always fails.
    pub fn execute_update(&self, sql: &str) -> (r: Result<usize, ProtocolError>)
        ensures
            r matches Err(e) && e.message@ == "JDBC update execution not yet implemented"@,
    {
        Err(fail_with("JDBC update execution not yet implemented"))
    }

    /// Prepared statements are not implemented: always fails.
    pub fn execute_prepared(&self, sql: &str, params: Vec<String>) -> (r: Result<
        JdbcResultSet,
        ProtocolError,
    >)
        ensures
            r matches Err(e) && e.message@ == "JDBC prepared statement not yet implemented"@,
    {
        Err(fail_with("JDBC prepared statement not yet implemented"))
    }

    /// Closes the connection.
    pub fn close(&mut self) -> (r: Result<(), ProtocolError>)
        ensures
            r is Ok,
    {
        Ok(())
    }
}

/// Rows of a query result.
pub struct JdbcResultSet {
    pub rows: Vec<StringMap>,
    pub row_count: usize,
}

} // verus!
