//! Error kinds raised by the broker and its client library.
use vstd::prelude::*;

verus! {

/// Every failure the broker or the client library can report.
///
/// Protocol errors (`BadAuth`, `InvalidSequence`, `NoConsumerStart`,
/// `FailedToReadDataStart`) close only the session that raised them; I/O
/// errors are raised at the edges of the system and carried through here.
#[derive(Debug, Clone, Copy, PartialEq, Eq, Structural)]
pub enum Er {
    BadAuth,
    NotReady,
    ClientTcpRead,
    ClientTcpWrite,
    ServerTcpRead,
    ServerTcpWrite,
    IsClosed,
    InvalidSequence,
    CantReadFile,
    CantWriteFile,
    CantSendFile,
    CantReadDir,
    CantOpenFile,
    InotifyError,
    FailedToReturnMessage,
    NoConsumerStart,
    FailedToReadDataStart,
    TopicNotFound,
    IsNone,
    InvalidEventMask,
    BadFileName,
    BadOffset,
    ParseError,
}

impl Er {
    /// The text that `to_text` returns for this error.
    pub open spec fn text_spec(self) -> Seq<char> {
        match self {
            Er::BadAuth => "Incorrect Authentication information supplied - connection will be closed"@,
            Er::NotReady => "Still reading input - not enough data to proceed"@,
            Er::ClientTcpRead => "Failed to read tcp data client->server"@,
            Er::ClientTcpWrite => "Failed to write tcp data client->server"@,
            Er::ServerTcpRead => "Failed to read tcp data server->client"@,
            Er::ServerTcpWrite => "Failed to write tcp data server->client"@,
            Er::IsClosed => "Tried to process client that is already closed"@,
            Er::InvalidSequence => "Sequence number on incoming request from client is invalid"@,
            Er::CantReadFile => "Failed to read topic file"@,
            Er::CantWriteFile => "Failed to write to topic file"@,
            Er::CantSendFile => "Failed to send data to tcp port"@,
            Er::CantReadDir => "Failed to read topic directory"@,
            Er::CantOpenFile => "Failed to open topic file"@,
            Er::InotifyError => "Problem trying to watch the topic directory"@,
            Er::FailedToReturnMessage => "Failed to hand a completed message to the receiver"@,
            Er::NoConsumerStart => "Received content from server, but never received the header message containing start references."@,
            Er::FailedToReadDataStart => "Could not read expected start value from consumer header message"@,
            Er::TopicNotFound => "Trying to retrieve topic - not found in collection"@,
            Er::IsNone => "Value returned as 'None' but this should not be possible"@,
            Er::InvalidEventMask => "Event mask returned from event is unexpected"@,
            Er::BadFileName => "Trying to parse a file for topic - bad filename"@,
            Er::BadOffset => "Bad topic filename - cannot parse the hex offset value"@,
            Er::ParseError => "Error converting to type"@,
        }
    }

    /// A human-readable description of the error.
    pub fn to_text(&self) -> (r: &'static str)
        ensures
            r@ == self.text_spec(),
    {
        match self {
            Er::BadAuth => "Incorrect Authentication information supplied - connection will be closed",
            Er::NotReady => "Still reading input - not enough data to proceed",
            Er::ClientTcpRead => "Failed to read tcp data client->server",
            Er::ClientTcpWrite => "Failed to write tcp data client->server",
            Er::ServerTcpRead => "Failed to read tcp data server->client",
            Er::ServerTcpWrite => "Failed to write tcp data server->client",
            Er::IsClosed => "Tried to process client that is already closed",
            Er::InvalidSequence => "Sequence number on incoming request from client is invalid",
            Er::CantReadFile => "Failed to read topic file",
            Er::CantWriteFile => "Failed to write to topic file",
            Er::CantSendFile => "Failed to send data to tcp port",
            Er::CantReadDir => "Failed to read topic directory",
            Er::CantOpenFile => "Failed to open topic file",
            Er::InotifyError => "Problem trying to watch the topic directory",
            Er::FailedToReturnMessage => "Failed to hand a completed message to the receiver",
            Er::NoConsumerStart => "Received content from server, but never received the header message containing start references.",
            Er::FailedToReadDataStart => "Could not read expected start value from consumer header message",
            Er::TopicNotFound => "Trying to retrieve topic - not found in collection",
            Er::IsNone => "Value returned as 'None' but this should not be possible",
            Er::InvalidEventMask => "Event mask returned from event is unexpected",
            Er::BadFileName => "Trying to parse a file for topic - bad filename",
            Er::BadOffset => "Bad topic filename - cannot parse the hex offset value",
            Er::ParseError => "Error converting to type",
        }
    }
}

/// Unwrapping of results whose failure would be a programming error; callers
/// must show the value is present.
pub trait LogError: Sized {
    type Output;

    spec fn can_unwrap(self) -> bool;

    spec fn unwrapped(self) -> Self::Output;

    fn handle_err(self, message: &str) -> (r: Self::Output)
        requires
            self.can_unwrap(),
        ensures
            r == self.unwrapped(),
    ;
}

impl<T> LogError for Result<T, Er> {
    type Output = T;

    open spec fn can_unwrap(self) -> bool {
        match self {
            Ok(_) => true,
            Err(_) => false,
        }
    }

    open spec fn unwrapped(self) -> T {
        match self {
            Ok(v) => v,
            Err(_) => arbitrary(),
        }
    }

    fn handle_err(self, message: &str) -> (r: T) {
        match self {
            Ok(v) => v,
            Err(_) => vstd::pervasive::unreached(),
        }
    }
}

} // verus!
