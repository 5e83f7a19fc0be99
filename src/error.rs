//! Error objects and the fixed mapping from error codes to categories.

use vstd::prelude::*;
use crate::request::opt_str_view;

verus! {

/// The category of a JSON-RPC error code.
#[derive(Debug, Clone, Copy, PartialEq, Eq, Structural)]
pub enum ErrorKind {
    /// -32700: invalid JSON was received.
    ParseError,
    /// -32600: the JSON sent is not a valid request object.
    InvalidRequest,
    /// -32601: the method does not exist or is not available.
    MethodNotFound,
    /// -32602: invalid method parameters.
    InvalidParams,
    /// -32603: internal JSON-RPC error.
    InternalError,
    /// -32099 to -32000: reserved for implementation-defined server errors.
    ServerError(i32),
}

/// A code that lies outside every range the protocol defines.
#[derive(Debug, Clone, Copy, PartialEq, Eq, Structural)]
pub struct UndefinedCode {
    pub code: i32,
}

pub const PARSE_ERROR: i32 = -32700;
pub const INVALID_REQUEST: i32 = -32600;
pub const METHOD_NOT_FOUND: i32 = -32601;
pub const INVALID_PARAMS: i32 = -32602;
pub const INTERNAL_ERROR: i32 = -32603;
pub const SERVER_ERROR_FIRST: i32 = -32099;
pub const SERVER_ERROR_LAST: i32 = -32000;

/// Whether `code` lies in the range reserved for server errors.
pub open spec fn is_server_error_code(code: i32) -> bool {
    SERVER_ERROR_FIRST <= code <= SERVER_ERROR_LAST
}

/// The category of `code`, or `None` where the protocol defines none.
pub open spec fn kind_of(code: i32) -> Option<ErrorKind> {
    if code == PARSE_ERROR {
        Some(ErrorKind::ParseError)
    } else if code == INVALID_REQUEST {
        Some(ErrorKind::InvalidRequest)
    } else if code == METHOD_NOT_FOUND {
        Some(ErrorKind::MethodNotFound)
    } else if code == INVALID_PARAMS {
        Some(ErrorKind::InvalidParams)
    } else if code == INTERNAL_ERROR {
        Some(ErrorKind::InternalError)
    } else if is_server_error_code(code) {
        Some(ErrorKind::ServerError(code))
    } else {
        None
    }
}

/// What classifying `code` yields: its category, or the undefined-code failure.
pub open spec fn classify(code: i32) -> Result<ErrorKind, UndefinedCode> {
    match kind_of(code) {
        Some(k) => Ok(k),
        None => Err(UndefinedCode { code }),
    }
}

/// The code that stands for a category.
pub open spec fn code_of(k: ErrorKind) -> i32 {
    match k {
        ErrorKind::ParseError => PARSE_ERROR,
        ErrorKind::InvalidRequest => INVALID_REQUEST,
        ErrorKind::MethodNotFound => METHOD_NOT_FOUND,
        ErrorKind::InvalidParams => INVALID_PARAMS,
        ErrorKind::InternalError => INTERNAL_ERROR,
        ErrorKind::ServerError(c) => c,
    }
}

/// Whether `k` is a category the protocol defines (a server error carries a code in range).
pub open spec fn kind_wf(k: ErrorKind) -> bool {
    match k {
        ErrorKind::ServerError(c) => is_server_error_code(c),
        _ => true,
    }
}

/// The human-readable message of a category.
pub open spec fn message_of(k: ErrorKind) -> Seq<char> {
    match k {
        ErrorKind::ParseError => "Parse error"@,
        ErrorKind::InvalidRequest => "Invalid Request"@,
        ErrorKind::MethodNotFound => "Method not found"@,
        ErrorKind::InvalidParams => "Invalid params"@,
        ErrorKind::InternalError => "Internal error"@,
        ErrorKind::ServerError(_) => "Server error"@,
    }
}

/// Every code of the server-error range is classified as a server error carrying that code.
pub proof fn lemma_server_error_range(code: i32)
    requires
        SERVER_ERROR_FIRST <= code <= SERVER_ERROR_LAST,
    ensures
        classify(code) == Ok::<ErrorKind, UndefinedCode>(ErrorKind::ServerError(code)),
{
}

/// Each of the five predefined codes is classified as its own category.
pub proof fn lemma_predefined_codes()
    ensures
        classify(-32700i32) == Ok::<ErrorKind, UndefinedCode>(ErrorKind::ParseError),
        classify(-32600i32) == Ok::<ErrorKind, UndefinedCode>(ErrorKind::InvalidRequest),
        classify(-32601i32) == Ok::<ErrorKind, UndefinedCode>(ErrorKind::MethodNotFound),
        classify(-32602i32) == Ok::<ErrorKind, UndefinedCode>(ErrorKind::InvalidParams),
        classify(-32603i32) == Ok::<ErrorKind, UndefinedCode>(ErrorKind::InternalError),
{
}

/// A code that is neither one of the predefined codes nor in the server-error range is
/// classified as undefined.
pub proof fn lemma_undefined_codes(code: i32)
    requires
        code != PARSE_ERROR,
        code != INVALID_REQUEST,
        code != METHOD_NOT_FOUND,
        code != INVALID_PARAMS,
        code != INTERNAL_ERROR,
        !is_server_error_code(code),
    ensures
        classify(code) == Err::<ErrorKind, UndefinedCode>(UndefinedCode { code }),
{
}

/// A defined category is classified back from its own code.
pub proof fn lemma_code_of_kind(k: ErrorKind)
    requires
        kind_wf(k),
    ensures
        kind_of(code_of(k)) == Some(k),
{
}

impl ErrorKind {
    /// The code that stands for this category.
    pub fn code(&self) -> (r: i32)
        ensures
            r == code_of(*self),
    {
        match self {
            ErrorKind::ParseError => PARSE_ERROR,
            ErrorKind::InvalidRequest => INVALID_REQUEST,
            ErrorKind::MethodNotFound => METHOD_NOT_FOUND,
            ErrorKind::InvalidParams => INVALID_PARAMS,
            ErrorKind::InternalError => INTERNAL_ERROR,
            ErrorKind::ServerError(c) => *c,
        }
    }

    /// The fixed human-readable message of this category.
    pub fn message(&self) -> (r: &'static str)
        ensures
            r@ == message_of(*self),
    {
        match self {
            ErrorKind::ParseError => "Parse error",
            ErrorKind::InvalidRequest => "Invalid Request",
            ErrorKind::MethodNotFound => "Method not found",
            ErrorKind::InvalidParams => "Invalid params",
            ErrorKind::InternalError => "Internal error",
            ErrorKind::ServerError(_) => "Server error",
        }
    }
}

/// The abstract contents of an error object.
pub ghost struct ErrorObjectView {
    pub code: i32,
    pub message: Seq<char>,
    pub data: Option<Seq<char>>,
}

/// An error object: a defined code, the fixed message of its category, and optional
/// supplementary data.
pub struct ErrorObject {
    code: i32,
    message: &'static str,
    data: Option<String>,
}

impl View for ErrorObject {
    type V = ErrorObjectView;

    closed spec fn view(&self) -> ErrorObjectView {
        ErrorObjectView { code: self.code, message: self.message@, data: opt_str_view(self.data) }
    }
}

impl ErrorObject {
    /// The code is defined and the message is that of its category.
    #[verifier::type_invariant]
    closed spec fn inv(self) -> bool {
        &&& kind_of(self.code) is Some
        &&& self.message@ == message_of(kind_of(self.code)->0)
    }

    /// Classifies an error code into its category; a code outside every defined range
    /// is reported as `UndefinedCode`.
    pub fn set(code: i32) -> (r: Result<ErrorKind, UndefinedCode>)
        ensures
            r == classify(code),
    {
        if code == PARSE_ERROR {
            Ok(ErrorKind::ParseError)
        } else if code == INVALID_REQUEST {
            Ok(ErrorKind::InvalidRequest)
        } else if code == METHOD_NOT_FOUND {
            Ok(ErrorKind::MethodNotFound)
        } else if code == INVALID_PARAMS {
            Ok(ErrorKind::InvalidParams)
        } else if code == INTERNAL_ERROR {
            Ok(ErrorKind::InternalError)
        } else if SERVER_ERROR_FIRST <= code && code <= SERVER_ERROR_LAST {
            Ok(ErrorKind::ServerError(code))
        } else {
            Err(UndefinedCode { code })
        }
    }

    /// Builds the error object for `code` with the message of its category, or reports
    /// the code as undefined.
    pub fn new(code: i32, data: Option<String>) -> (r: Result<ErrorObject, UndefinedCode>)
        ensures
            match r {
                Ok(e) => kind_of(code) is Some && e@ == (ErrorObjectView {
                    code,
                    message: message_of(kind_of(code)->0),
                    data: opt_str_view(data),
                }),
                Err(u) => kind_of(code) is None && u == (UndefinedCode { code }),
            },
    {
        match ErrorObject::set(code) {
            Ok(k) => Ok(ErrorObject { code, message: k.message(), data }),
            Err(u) => Err(u),
        }
    }

    /// Builds the error object of a defined category.
    pub fn from_kind(k: ErrorKind, data: Option<String>) -> (r: ErrorObject)
        requires
            kind_wf(k),
        ensures
            r@ == (ErrorObjectView {
                code: code_of(k),
                message: message_of(k),
                data: opt_str_view(data),
            }),
    {
        ErrorObject { code: k.code(), message: k.message(), data }
    }

    /// The error code.
    pub fn code(&self) -> (r: i32)
        ensures
            r == self@.code,
    {
        self.code
    }

    /// The fixed message of the code's category.
    pub fn message(&self) -> (r: &'static str)
        ensures
            r@ == self@.message,
    {
        self.message
    }

    /// The supplementary data, if any.
    pub fn data(&self) -> (r: &Option<String>)
        ensures
            opt_str_view(*r) == self@.data,
    {
        &self.data
    }

    /// The category of the error code.
    pub fn kind(&self) -> (r: ErrorKind)
        ensures
            kind_of(self@.code) == Some(r),
            message_of(r) == self@.message,
    {
        proof {
            use_type_invariant(self);
        }
        match ErrorObject::set(self.code) {
            Ok(k) => k,
            // The type invariant keeps the code defined, so this arm is never taken.
            Err(_) => ErrorKind::InternalError,
        }
    }
}

} // verus!
