//! The engine's error taxonomy: connection, authentication, agent, channel
//! operation, precondition ("not connected"), cancellation, local I/O and
//! timeout failures, each rendered as one human-readable message.

use vstd::prelude::*;

verus! {

use vstd::string::StringExecFns;

/// One failure of the engine, labeled by the stage that failed.
#[derive(Debug)]
pub enum SftpError {
    /// The transport could not be established or broke down.
    Connection(String),
    /// Every authentication mechanism was exhausted.
    Authentication(String),
    /// The agent socket could not be used.
    SshAgent(String),
    /// The channel rejected a specific request.
    SftpOperation(String),
    /// An operation was issued against a host with no live connection.
    NotConnected(String),
    /// The transfer was cancelled by explicit request.
    TransferCancelled,
    /// A local input/output step failed.
    Io(String),
    /// A step exceeded its explicit time bound.
    Timeout(String),
}

impl SftpError {
    /// The message of this error: its stage label, then the underlying cause.
    pub open spec fn message_spec(&self) -> Seq<char> {
        match self {
            SftpError::Connection(m) => "Connection failed: "@ + m@,
            SftpError::Authentication(m) => "Authentication failed: "@ + m@,
            SftpError::SshAgent(m) => "SSH agent error: "@ + m@,
            SftpError::SftpOperation(m) => "SFTP operation failed: "@ + m@,
            SftpError::NotConnected(m) => "Not connected: "@ + m@,
            SftpError::TransferCancelled => "Transfer cancelled"@,
            SftpError::Io(m) => "IO error: "@ + m@,
            SftpError::Timeout(m) => "Timeout: "@ + m@,
        }
    }

    /// Renders the one human-readable message of this error.
    pub fn message(&self) -> (r: String)
        ensures
            r@ == self.message_spec(),
    {
        match self {
            SftpError::Connection(m) => prefixed("Connection failed: ", m),
            SftpError::Authentication(m) => prefixed("Authentication failed: ", m),
            SftpError::SshAgent(m) => prefixed("SSH agent error: ", m),
            SftpError::SftpOperation(m) => prefixed("SFTP operation failed: ", m),
            SftpError::NotConnected(m) => prefixed("Not connected: ", m),
            SftpError::TransferCancelled => "Transfer cancelled".to_owned(),
            SftpError::Io(m) => prefixed("IO error: ", m),
            SftpError::Timeout(m) => prefixed("Timeout: ", m),
        }
    }
}

/// A stage label followed by the underlying cause.
fn prefixed(prefix: &str, m: &String) -> (r: String)
    ensures
        r@ == prefix@ + m@,
{
    let mut r = prefix.to_owned();
    r.append(m.as_str());
    r
}

} // verus!
