//! Message shapes of JSON-RPC 2.0: requests, identifiers and error objects.

pub mod codec;
pub mod error;
pub mod request;

pub use error::{ErrorKind, ErrorObject, UndefinedCode};
pub use request::{Id, JsonRPCRequestObject};
