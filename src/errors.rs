//! Protocol errors and their numeric result codes.
use vstd::prelude::*;

verus! {

/// Errors of the broker protocol. On the wire each is a non-zero `u16`
/// result code; `0` means success.
#[derive(Clone, Copy, Debug, PartialEq, Eq, Structural)]
pub enum ProtocolError {
    WriteError,
    ActorError,
    InvalidState,
    SignatureError,
    InvalidMessage,
    InvalidBlock,
    InvalidSecret,
    OverlayNotJoined,
    OverlayAlreadyJoined,
    NotFound,
    EndOfStream,
    StorageError,
    MissingBlocks,
    UserAlreadyExists,
    NotAnAdmin,
    ConnectionLost,
    CannotSend,
}

/// The result code of an error.
pub open spec fn error_code(e: ProtocolError) -> u16 {
    match e {
        ProtocolError::WriteError => 1,
        ProtocolError::ActorError => 2,
        ProtocolError::InvalidState => 3,
        ProtocolError::SignatureError => 4,
        ProtocolError::InvalidMessage => 5,
        ProtocolError::InvalidBlock => 6,
        ProtocolError::InvalidSecret => 7,
        ProtocolError::OverlayNotJoined => 8,
        ProtocolError::OverlayAlreadyJoined => 9,
        ProtocolError::NotFound => 10,
        ProtocolError::EndOfStream => 11,
        ProtocolError::StorageError => 12,
        ProtocolError::MissingBlocks => 13,
        ProtocolError::UserAlreadyExists => 14,
        ProtocolError::NotAnAdmin => 15,
        ProtocolError::ConnectionLost => 16,
        ProtocolError::CannotSend => 17,
    }
}

/// The largest result code in use.
pub const MAX_ERROR_CODE: u16 = 17;

/// The error whose code is `c`, if any.
pub open spec fn error_of_code(c: u16) -> Option<ProtocolError> {
    if 1 <= c <= MAX_ERROR_CODE {
        Some(choose|e: ProtocolError| error_code(e) == c)
    } else {
        None
    }
}

/// The result code of an outcome: `0` for success, the error's code otherwise.
pub open spec fn result_code_of(r: Result<(), ProtocolError>) -> u16 {
    match r {
        Ok(()) => 0,
        Err(e) => error_code(e),
    }
}

/// The outcome that a result code stands for: `Ok` for `0`, the error
/// otherwise; an unknown code is an invalid message.
pub open spec fn outcome_of_code_spec(c: u16) -> Result<(), ProtocolError> {
    if c == 0 {
        Ok(())
    } else if c <= MAX_ERROR_CODE {
        Err(error_of_code(c)->0)
    } else {
        Err(ProtocolError::InvalidMessage)
    }
}

impl ProtocolError {
    /// The result code of this error.
    pub fn code(&self) -> (r: u16)
        ensures
            r == error_code(*self),
            1 <= r <= MAX_ERROR_CODE,
    {
        match self {
            ProtocolError::WriteError => 1,
            ProtocolError::ActorError => 2,
            ProtocolError::InvalidState => 3,
            ProtocolError::SignatureError => 4,
            ProtocolError::InvalidMessage => 5,
            ProtocolError::InvalidBlock => 6,
            ProtocolError::InvalidSecret => 7,
            ProtocolError::OverlayNotJoined => 8,
            ProtocolError::OverlayAlreadyJoined => 9,
            ProtocolError::NotFound => 10,
            ProtocolError::EndOfStream => 11,
            ProtocolError::StorageError => 12,
            ProtocolError::MissingBlocks => 13,
            ProtocolError::UserAlreadyExists => 14,
            ProtocolError::NotAnAdmin => 15,
            ProtocolError::ConnectionLost => 16,
            ProtocolError::CannotSend => 17,
        }
    }

    /// The error with result code `c`; `Err(())` for `0` and for unknown codes.
    pub fn try_from(c: u16) -> (r: Result<ProtocolError, ()>)
        ensures
            match r {
                Ok(e) => error_code(e) == c,
                Err(()) => c == 0 || c > MAX_ERROR_CODE,
            },
    {
        match c {
            1 => Ok(ProtocolError::WriteError),
            2 => Ok(ProtocolError::ActorError),
            3 => Ok(ProtocolError::InvalidState),
            4 => Ok(ProtocolError::SignatureError),
            5 => Ok(ProtocolError::InvalidMessage),
            6 => Ok(ProtocolError::InvalidBlock),
            7 => Ok(ProtocolError::InvalidSecret),
            8 => Ok(ProtocolError::OverlayNotJoined),
            9 => Ok(ProtocolError::OverlayAlreadyJoined),
            10 => Ok(ProtocolError::NotFound),
            11 => Ok(ProtocolError::EndOfStream),
            12 => Ok(ProtocolError::StorageError),
            13 => Ok(ProtocolError::MissingBlocks),
            14 => Ok(ProtocolError::UserAlreadyExists),
            15 => Ok(ProtocolError::NotAnAdmin),
            16 => Ok(ProtocolError::ConnectionLost),
            17 => Ok(ProtocolError::CannotSend),
            _ => Err(()),
        }
    }

    /// The error's name.
    pub fn name(&self) -> (r: &'static str) {
        match self {
            ProtocolError::WriteError => "WriteError",
            ProtocolError::ActorError => "ActorError",
            ProtocolError::InvalidState => "InvalidState",
            ProtocolError::SignatureError => "SignatureError",
            ProtocolError::InvalidMessage => "InvalidMessage",
            ProtocolError::InvalidBlock => "InvalidBlock",
            ProtocolError::InvalidSecret => "InvalidSecret",
            ProtocolError::OverlayNotJoined => "OverlayNotJoined",
            ProtocolError::OverlayAlreadyJoined => "OverlayAlreadyJoined",
            ProtocolError::NotFound => "NotFound",
            ProtocolError::EndOfStream => "EndOfStream",
            ProtocolError::StorageError => "StorageError",
            ProtocolError::MissingBlocks => "MissingBlocks",
            ProtocolError::UserAlreadyExists => "UserAlreadyExists",
            ProtocolError::NotAnAdmin => "NotAnAdmin",
            ProtocolError::ConnectionLost => "ConnectionLost",
            ProtocolError::CannotSend => "CannotSend",
        }
    }
}

/// The result code of an outcome: `0` for success.
pub fn result_code(r: &Result<(), ProtocolError>) -> (c: u16)
    ensures
        c == result_code_of(*r),
{
    match r {
        Ok(()) => 0,
        Err(e) => e.code(),
    }
}

/// The outcome that a result code stands for: `Ok` for `0`, the error
/// otherwise; an unknown code is an invalid message.
pub fn outcome_of_code(c: u16) -> (r: Result<(), ProtocolError>)
    ensures
        r == outcome_of_code_spec(c),
        c == 0 ==> r is Ok,
        1 <= c <= MAX_ERROR_CODE ==> r == Err::<(), ProtocolError>(error_of_code(c)->0),
        c > MAX_ERROR_CODE ==> r == Err::<(), ProtocolError>(ProtocolError::InvalidMessage),
{
    if c == 0 {
        Ok(())
    } else {
        match ProtocolError::try_from(c) {
            Ok(e) => {
                proof {
                    lemma_code_in_range(c);
                    lemma_code_injective(e, error_of_code(c)->0);
                }
                Err(e)
            },
            Err(()) => Err(ProtocolError::InvalidMessage),
        }
    }
}

/// Distinct errors have distinct codes.
pub proof fn lemma_code_injective(a: ProtocolError, b: ProtocolError)
    requires
        error_code(a) == error_code(b),
    ensures
        a == b,
{
}

/// Every code in range names an error.
pub proof fn lemma_code_in_range(c: u16)
    requires
        1 <= c <= MAX_ERROR_CODE,
    ensures
        error_of_code(c) is Some,
        error_code(error_of_code(c)->0) == c,
{
    let e = match c {
        1 => ProtocolError::WriteError,
        2 => ProtocolError::ActorError,
        3 => ProtocolError::InvalidState,
        4 => ProtocolError::SignatureError,
        5 => ProtocolError::InvalidMessage,
        6 => ProtocolError::InvalidBlock,
        7 => ProtocolError::InvalidSecret,
        8 => ProtocolError::OverlayNotJoined,
        9 => ProtocolError::OverlayAlreadyJoined,
        10 => ProtocolError::NotFound,
        11 => ProtocolError::EndOfStream,
        12 => ProtocolError::StorageError,
        13 => ProtocolError::MissingBlocks,
        14 => ProtocolError::UserAlreadyExists,
        15 => ProtocolError::NotAnAdmin,
        16 => ProtocolError::ConnectionLost,
        _ => ProtocolError::CannotSend,
    };
    assert(error_code(e) == c);
}

/// A result code read back gives the outcome it was made from.
pub proof fn lemma_result_code_round_trip(r: Result<(), ProtocolError>)
    ensures
        match r {
            Ok(()) => result_code_of(r) == 0,
            Err(e) => error_of_code(result_code_of(r)) == Some(e),
        },
{
    if let Err(e) = r {
        let c = error_code(e);
        lemma_code_in_range(c);
        lemma_code_injective(e, error_of_code(c)->0);
    }
}

} // verus!
