use vstd::prelude::*;

verus! {

/// Native status code: success.
pub const OPUS_OK: i32 = 0;
/// Native status code: one or more invalid or out of range arguments.
pub const OPUS_BAD_ARG: i32 = -1;
/// Native status code: not enough bytes allocated in the buffer.
pub const OPUS_BUFFER_TOO_SMALL: i32 = -2;
/// Native status code: an internal error was detected.
pub const OPUS_INTERNAL_ERROR: i32 = -3;
/// Native status code: the compressed data passed is corrupted.
pub const OPUS_INVALID_PACKET: i32 = -4;
/// Native status code: invalid or unsupported request number.
pub const OPUS_UNIMPLEMENTED: i32 = -5;
/// Native status code: a codec state is invalid or already freed.
pub const OPUS_INVALID_STATE: i32 = -6;
/// Native status code: memory allocation has failed.
pub const OPUS_ALLOC_FAIL: i32 = -7;
/// The raw value that stands for `ErrorCode::Unknown`.
pub const UNKNOWN_CODE: i32 = -8;

/// Possible error codes.
#[derive(Debug, Clone, Copy, PartialEq, Eq, Structural, Hash)]
pub enum ErrorCode {
    /// One or more invalid/out of range arguments.
    BadArg,
    /// Not enough bytes allocated in the buffer.
    BufferTooSmall,
    /// An internal error was detected.
    InternalError,
    /// The compressed data passed is corrupted.
    InvalidPacket,
    /// Invalid/unsupported request number.
    Unimplemented,
    /// An encoder or decoder structure is invalid or already freed.
    InvalidState,
    /// Memory allocation has failed.
    AllocFail,
    /// An unknown failure.
    Unknown,
}

/// The classification of a raw native status code.
pub open spec fn error_code_of(value: i32) -> ErrorCode {
    if value == OPUS_BAD_ARG {
        ErrorCode::BadArg
    } else if value == OPUS_BUFFER_TOO_SMALL {
        ErrorCode::BufferTooSmall
    } else if value == OPUS_INTERNAL_ERROR {
        ErrorCode::InternalError
    } else if value == OPUS_INVALID_PACKET {
        ErrorCode::InvalidPacket
    } else if value == OPUS_UNIMPLEMENTED {
        ErrorCode::Unimplemented
    } else if value == OPUS_INVALID_STATE {
        ErrorCode::InvalidState
    } else if value == OPUS_ALLOC_FAIL {
        ErrorCode::AllocFail
    } else {
        ErrorCode::Unknown
    }
}

/// The message that the native engine gives for a status code.
pub open spec fn strerror_text(code: i32) -> Seq<char> {
    if code == 0 {
        "success (0)"@
    } else if code == -1 {
        "invalid argument (-1)"@
    } else if code == -2 {
        "buffer too small (-2)"@
    } else if code == -3 {
        "internal error (-3)"@
    } else if code == -4 {
        "corrupted stream (-4)"@
    } else if code == -5 {
        "request not implemented (-5)"@
    } else if code == -6 {
        "invalid state (-6)"@
    } else if code == -7 {
        "memory allocation failed (-7)"@
    } else {
        "unknown error"@
    }
}

/// Relies on unsafe_libopus::opus_strerror: a fixed message for each status
/// code from 0 down to -7, and "unknown error" for any other code.
#[verifier::external_body]
fn strerror(code: i32) -> (r: &'static str)
    ensures
        r@ == strerror_text(code),
{
    unsafe_libopus::opus_strerror(code)
}

impl ErrorCode {
    /// The raw native value of this code.
    pub open spec fn spec_raw(self) -> i32 {
        match self {
            ErrorCode::BadArg => OPUS_BAD_ARG,
            ErrorCode::BufferTooSmall => OPUS_BUFFER_TOO_SMALL,
            ErrorCode::InternalError => OPUS_INTERNAL_ERROR,
            ErrorCode::InvalidPacket => OPUS_INVALID_PACKET,
            ErrorCode::Unimplemented => OPUS_UNIMPLEMENTED,
            ErrorCode::InvalidState => OPUS_INVALID_STATE,
            ErrorCode::AllocFail => OPUS_ALLOC_FAIL,
            ErrorCode::Unknown => UNKNOWN_CODE,
        }
    }

    /// Classify a raw native status code; any code outside the known set is
    /// `Unknown`.
    pub fn from_int(value: i32) -> (r: ErrorCode)
        ensures
            r == error_code_of(value),
    {
        if value == OPUS_BAD_ARG {
            ErrorCode::BadArg
        } else if value == OPUS_BUFFER_TOO_SMALL {
            ErrorCode::BufferTooSmall
        } else if value == OPUS_INTERNAL_ERROR {
            ErrorCode::InternalError
        } else if value == OPUS_INVALID_PACKET {
            ErrorCode::InvalidPacket
        } else if value == OPUS_UNIMPLEMENTED {
            ErrorCode::Unimplemented
        } else if value == OPUS_INVALID_STATE {
            ErrorCode::InvalidState
        } else if value == OPUS_ALLOC_FAIL {
            ErrorCode::AllocFail
        } else {
            ErrorCode::Unknown
        }
    }

    /// The raw native value of this code.
    pub fn raw(self) -> (r: i32)
        ensures
            r == self.spec_raw(),
    {
        match self {
            ErrorCode::BadArg => OPUS_BAD_ARG,
            ErrorCode::BufferTooSmall => OPUS_BUFFER_TOO_SMALL,
            ErrorCode::InternalError => OPUS_INTERNAL_ERROR,
            ErrorCode::InvalidPacket => OPUS_INVALID_PACKET,
            ErrorCode::Unimplemented => OPUS_UNIMPLEMENTED,
            ErrorCode::InvalidState => OPUS_INVALID_STATE,
            ErrorCode::AllocFail => OPUS_ALLOC_FAIL,
            ErrorCode::Unknown => UNKNOWN_CODE,
        }
    }

    /// Get a human-readable error string for this error code.
    pub fn description(self) -> (r: &'static str)
        ensures
            r@ == strerror_text(self.spec_raw()),
    {
        strerror(self.raw())
    }
}

/// An error generated by the Opus library: the native call that failed,
/// the control request that was being serviced, if any, and the code.
#[derive(Debug, Clone, Copy)]
pub struct Error {
    function: &'static str,
    request: Option<&'static str>,
    code: ErrorCode,
}

impl Error {
    /// The name of the failed call.
    pub closed spec fn spec_function(self) -> Seq<char> {
        self.function@
    }

    /// The name of the control request that failed, if any.
    pub closed spec fn spec_request(self) -> Option<Seq<char>> {
        match self.request {
            Some(r) => Some(r@),
            None => None,
        }
    }

    /// The classification of the failure.
    pub closed spec fn spec_code(self) -> ErrorCode {
        self.code
    }

    /// An argument outside the accepted domain, found by `what`.
    pub fn bad_arg(what: &'static str) -> (e: Error)
        ensures
            e.spec_function() == what@,
            e.spec_request() == None::<Seq<char>>,
            e.spec_code() == ErrorCode::BadArg,
    {
        Error { function: what, request: None, code: ErrorCode::BadArg }
    }

    /// The failure of the native call `what` with the raw status `code`.
    pub fn from_code(what: &'static str, code: i32) -> (e: Error)
        ensures
            e.spec_function() == what@,
            e.spec_request() == None::<Seq<char>>,
            e.spec_code() == error_code_of(code),
    {
        Error { function: what, request: None, code: ErrorCode::from_int(code) }
    }

    /// The failure of the control request `request` through the native call
    /// `what`, with the raw status `code`.
    pub fn from_request(what: &'static str, request: &'static str, code: i32) -> (e: Error)
        ensures
            e.spec_function() == what@,
            e.spec_request() == Some(request@),
            e.spec_code() == error_code_of(code),
    {
        Error { function: what, request: Some(request), code: ErrorCode::from_int(code) }
    }

    /// A control request whose reply lies outside the accepted domain.
    pub fn bad_reply(what: &'static str, request: &'static str) -> (e: Error)
        ensures
            e.spec_function() == what@,
            e.spec_request() == Some(request@),
            e.spec_code() == ErrorCode::BadArg,
    {
        Error { function: what, request: Some(request), code: ErrorCode::BadArg }
    }

    /// The same failure, reported as a failure of the call `what`.
    pub fn with_function(self, what: &'static str) -> (e: Error)
        ensures
            e.spec_function() == what@,
            e.spec_request() == None::<Seq<char>>,
            e.spec_code() == self.spec_code(),
    {
        Error { function: what, request: None, code: self.code }
    }

    /// Get the name of the Opus function from which the error originated.
    pub fn function(&self) -> (r: &'static str)
        ensures
            r@ == self.spec_function(),
    {
        self.function
    }

    /// Get the name of the control request that was being serviced, if the
    /// error came from one.
    pub fn request(&self) -> (r: Option<&'static str>)
        ensures
            r.is_some() == self.spec_request().is_some(),
            r.is_some() ==> self.spec_request() == Some(r.unwrap()@),
    {
        self.request
    }

    /// Get a textual description of the error provided by Opus.
    pub fn description(&self) -> (r: &'static str)
        ensures
            r@ == strerror_text(self.spec_code().spec_raw()),
    {
        self.code.description()
    }

    /// Get the Opus error code of the error.
    pub fn code(&self) -> (r: ErrorCode)
        ensures
            r == self.spec_code(),
    {
        self.code
    }
}

} // verus!
