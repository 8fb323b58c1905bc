//! The protocol's fixed numbers: the handshake constants, the operation
//! codes of query terms and the status codes of replies.

use vstd::prelude::*;

verus! {

/// The protocol version that the handshake announces.
pub const VERSION_MAGIC: u32 = 0x400c2d20;

/// The wire format that the handshake selects: queries and replies as JSON.
pub const JSON_MAGIC: u32 = 0x7e6970c7;

/// The code that opens a query envelope.
pub const QUERY_START: u32 = 1;

/// The operation of a query term.
#[allow(non_camel_case_types)]
#[derive(Debug, Clone, Copy, PartialEq, Eq, Structural)]
pub enum Term_TermType {
    DATUM,
    MAKE_ARRAY,
    MAKE_OBJ,
    DB,
    TABLE,
    GET,
    FILTER,
    INSERT,
    DB_CREATE,
    DB_DROP,
    DB_LIST,
}

impl Term_TermType {
    /// The number that stands for the operation on the wire.
    pub open spec fn code(self) -> nat {
        match self {
            Term_TermType::DATUM => 1,
            Term_TermType::MAKE_ARRAY => 2,
            Term_TermType::MAKE_OBJ => 3,
            Term_TermType::DB => 14,
            Term_TermType::TABLE => 15,
            Term_TermType::GET => 16,
            Term_TermType::FILTER => 39,
            Term_TermType::INSERT => 56,
            Term_TermType::DB_CREATE => 57,
            Term_TermType::DB_DROP => 58,
            Term_TermType::DB_LIST => 59,
        }
    }

    /// The number that stands for the operation on the wire.
    pub fn value(&self) -> (n: u32)
        ensures
            n == self.code(),
    {
        match self {
            Term_TermType::DATUM => 1,
            Term_TermType::MAKE_ARRAY => 2,
            Term_TermType::MAKE_OBJ => 3,
            Term_TermType::DB => 14,
            Term_TermType::TABLE => 15,
            Term_TermType::GET => 16,
            Term_TermType::FILTER => 39,
            Term_TermType::INSERT => 56,
            Term_TermType::DB_CREATE => 57,
            Term_TermType::DB_DROP => 58,
            Term_TermType::DB_LIST => 59,
        }
    }
}

/// The status of a reply.
#[allow(non_camel_case_types)]
#[derive(Debug, Clone, Copy, PartialEq, Eq, Structural)]
pub enum Response_ResponseType {
    SUCCESS_ATOM,
    SUCCESS_SEQUENCE,
    SUCCESS_PARTIAL,
    WAIT_COMPLETE,
    CLIENT_ERROR,
    COMPILE_ERROR,
    RUNTIME_ERROR,
}

impl Response_ResponseType {
    /// The number that stands for the status on the wire.
    pub open spec fn code(self) -> int {
        match self {
            Response_ResponseType::SUCCESS_ATOM => 1,
            Response_ResponseType::SUCCESS_SEQUENCE => 2,
            Response_ResponseType::SUCCESS_PARTIAL => 3,
            Response_ResponseType::WAIT_COMPLETE => 4,
            Response_ResponseType::CLIENT_ERROR => 16,
            Response_ResponseType::COMPILE_ERROR => 17,
            Response_ResponseType::RUNTIME_ERROR => 18,
        }
    }

    /// The status that a number stands for, if it stands for one.
    pub open spec fn of_code(n: int) -> Option<Response_ResponseType> {
        if n == 1 {
            Some(Response_ResponseType::SUCCESS_ATOM)
        } else if n == 2 {
            Some(Response_ResponseType::SUCCESS_SEQUENCE)
        } else if n == 3 {
            Some(Response_ResponseType::SUCCESS_PARTIAL)
        } else if n == 4 {
            Some(Response_ResponseType::WAIT_COMPLETE)
        } else if n == 16 {
            Some(Response_ResponseType::CLIENT_ERROR)
        } else if n == 17 {
            Some(Response_ResponseType::COMPILE_ERROR)
        } else if n == 18 {
            Some(Response_ResponseType::RUNTIME_ERROR)
        } else {
            None
        }
    }

    /// The number that stands for the status on the wire.
    pub fn value(&self) -> (n: i32)
        ensures
            n == self.code(),
    {
        match self {
            Response_ResponseType::SUCCESS_ATOM => 1,
            Response_ResponseType::SUCCESS_SEQUENCE => 2,
            Response_ResponseType::SUCCESS_PARTIAL => 3,
            Response_ResponseType::WAIT_COMPLETE => 4,
            Response_ResponseType::CLIENT_ERROR => 16,
            Response_ResponseType::COMPILE_ERROR => 17,
            Response_ResponseType::RUNTIME_ERROR => 18,
        }
    }

    /// The status that a number stands for; none for any other number.
    pub fn from_i32(n: i32) -> (status: Option<Response_ResponseType>)
        ensures
            status == Self::of_code(n as int),
    {
        match n {
            1 => Some(Response_ResponseType::SUCCESS_ATOM),
            2 => Some(Response_ResponseType::SUCCESS_SEQUENCE),
            3 => Some(Response_ResponseType::SUCCESS_PARTIAL),
            4 => Some(Response_ResponseType::WAIT_COMPLETE),
            16 => Some(Response_ResponseType::CLIENT_ERROR),
            17 => Some(Response_ResponseType::COMPILE_ERROR),
            18 => Some(Response_ResponseType::RUNTIME_ERROR),
            _ => None,
        }
    }

    /// A number stands for a status exactly when it is that status's code.
    pub proof fn lemma_code_round_trip(status: Response_ResponseType, n: int)
        ensures
            Self::of_code(status.code()) == Some(status),
            Self::of_code(n) == Some(status) <==> n == status.code(),
    {
    }
}

} // verus!
