//! Wire-level enumerations: the state of a connection's state machine and the
//! record types carried in a frame's type byte.
use vstd::prelude::*;

verus! {

/// The lifecycle of one connection's state machine.
#[derive(Debug, Clone, Copy, PartialEq, Eq, Structural)]
pub enum BufferState {
    Pending,
    Active,
    Closed,
}

/// The kinds of record a frame can carry, as written in the frame's type
/// byte.  `Undefined` stands for every code the protocol does not assign.
#[derive(Debug, Clone, Copy, PartialEq, Eq, Structural)]
pub enum RecordType {
    Auth,
    Producer,
    ConsumerFollowTopics,
    Undefined,
    DataFeed,
    IndexFeed,
}

/// The record type a given wire code stands for.
pub open spec fn record_type_of_code(code: u8) -> RecordType {
    if code == 1 {
        RecordType::Auth
    } else if code == 2 {
        RecordType::Producer
    } else if code == 3 {
        RecordType::ConsumerFollowTopics
    } else if code == 4 {
        RecordType::DataFeed
    } else if code == 5 {
        RecordType::IndexFeed
    } else {
        RecordType::Undefined
    }
}

/// The wire code of a record type; `Undefined` encodes as 0.
pub open spec fn code_of_record_type(t: RecordType) -> u8 {
    match t {
        RecordType::Auth => 1,
        RecordType::Producer => 2,
        RecordType::ConsumerFollowTopics => 3,
        RecordType::DataFeed => 4,
        RecordType::IndexFeed => 5,
        RecordType::Undefined => 0,
    }
}

impl RecordType {
    /// The wire code this record type is written as in a frame's type byte.
    pub fn code(&self) -> (c: u8)
        ensures
            c == code_of_record_type(*self),
    {
        match self {
            RecordType::Auth => 1,
            RecordType::Producer => 2,
            RecordType::ConsumerFollowTopics => 3,
            RecordType::DataFeed => 4,
            RecordType::IndexFeed => 5,
            RecordType::Undefined => 0,
        }
    }
}

impl From<u8> for RecordType {
    /// Decodes a frame's type byte; unassigned codes yield `Undefined`.
    fn from(code: u8) -> (t: Self) {
        match code {
            1 => Self::Auth,
            2 => Self::Producer,
            3 => Self::ConsumerFollowTopics,
            4 => Self::DataFeed,
            5 => Self::IndexFeed,
            _ => Self::Undefined,
        }
    }
}

impl vstd::std_specs::convert::FromSpecImpl<u8> for RecordType {
    open spec fn obeys_from_spec() -> bool {
        true
    }

    open spec fn from_spec(code: u8) -> Self {
        record_type_of_code(code)
    }
}

/// Wire codes and record types round-trip: decoding the code of any assigned
/// record type gives that type back, and every assigned code survives
/// encoding after decoding.
pub proof fn lemma_record_type_code_round_trip()
    ensures
        forall|t: RecordType| t != RecordType::Undefined ==> record_type_of_code(
            #[trigger] code_of_record_type(t),
        ) == t,
        forall|c: u8| 1 <= c <= 5 ==> code_of_record_type(#[trigger] record_type_of_code(c)) == c,
{
}

} // verus!
