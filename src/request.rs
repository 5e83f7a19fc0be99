//! Request objects and their identifiers.

use vstd::prelude::*;
use vstd::string::*;
use crate::error::ErrorKind;

verus! {

/// The only protocol version a request may carry.
pub const PROTOCOL_VERSION: &'static str = "2.0";

/// An identifier established by the client to correlate a request with its response:
/// a string or a non-negative integer, never fractional.
#[derive(Debug)]
pub enum Id {
    String(String),
    Number(u64),
}

/// The abstract value of an identifier.
pub ghost enum IdView {
    Str(Seq<char>),
    Num(u64),
}

impl View for Id {
    type V = IdView;

    open spec fn view(&self) -> IdView {
        match self {
            Id::String(s) => IdView::Str(s@),
            Id::Number(n) => IdView::Num(*n),
        }
    }
}

/// The abstract value of an optional identifier.
pub open spec fn opt_id_view(id: Option<Id>) -> Option<IdView> {
    match id {
        Some(i) => Some(i@),
        None => None,
    }
}

/// The abstract value of an optional string.
pub open spec fn opt_str_view(s: Option<String>) -> Option<Seq<char>> {
    match s {
        Some(t) => Some(t@),
        None => None,
    }
}

/// The prefix that marks method names reserved for rpc-internal methods and extensions.
pub open spec fn reserved_prefix() -> Seq<char> {
    seq!['r', 'p', 'c', '.']
}

/// Whether a method name is reserved: it begins with `rpc.`.
pub open spec fn is_reserved_name(name: Seq<char>) -> bool {
    reserved_prefix().is_prefix_of(name)
}

/// The abstract contents of a request.
pub ghost struct RequestView {
    pub jsonrpc: Seq<char>,
    pub id: Option<IdView>,
    pub method: Option<Seq<char>>,
    pub params: Option<Seq<char>>,
}

impl RequestView {
    /// A notification is a request without an identifier; no response is owed for it.
    pub open spec fn is_notification(self) -> bool {
        self.id is None
    }

    /// A request is valid when it carries version "2.0" and names a method that is
    /// non-empty and not reserved.
    pub open spec fn is_valid(self) -> bool {
        &&& self.jsonrpc == PROTOCOL_VERSION@
        &&& self.method is Some
        &&& self.method->0.len() > 0
        &&& !is_reserved_name(self.method->0)
    }
}

/// A call sent by a client: protocol version, optional identifier, method name and
/// parameter payload.
pub struct JsonRPCRequestObject {
    jsonrpc: String,
    id: Option<Id>,
    method: Option<String>,
    params: Option<String>,
}

impl View for JsonRPCRequestObject {
    type V = RequestView;

    closed spec fn view(&self) -> RequestView {
        RequestView {
            jsonrpc: self.jsonrpc@,
            id: opt_id_view(self.id),
            method: opt_str_view(self.method),
            params: opt_str_view(self.params),
        }
    }
}

/// Whether `name` begins with `rpc.`.
pub fn is_reserved_method(name: &str) -> (r: bool)
    ensures
        r == is_reserved_name(name@),
{
    let n = name.unicode_len();
    if n < 4 {
        return false;
    }
    let c0 = name.get_char(0);
    let c1 = name.get_char(1);
    let c2 = name.get_char(2);
    let c3 = name.get_char(3);
    let r = c0 == 'r' && c1 == 'p' && c2 == 'c' && c3 == '.';
    assert(r == (name@.subrange(0, 4) =~= reserved_prefix()));
    r
}

/// Whether `v` is exactly the protocol version "2.0".
pub fn is_protocol_version(v: &str) -> (r: bool)
    ensures
        r == (v@ == PROTOCOL_VERSION@),
{
    proof {
        reveal_strlit("2.0");
    }
    let n = v.unicode_len();
    if n != 3 {
        return false;
    }
    let r = v.get_char(0) == '2' && v.get_char(1) == '.' && v.get_char(2) == '0';
    assert(r == (v@ =~= PROTOCOL_VERSION@));
    r
}

impl JsonRPCRequestObject {
    /// A request of protocol version "2.0" with the given identifier, method and parameters.
    pub fn new(id: Option<Id>, method: Option<String>, params: Option<String>) -> (r: Self)
        ensures
            r@ == (RequestView {
                jsonrpc: PROTOCOL_VERSION@,
                id: opt_id_view(id),
                method: opt_str_view(method),
                params: opt_str_view(params),
            }),
    {
        JsonRPCRequestObject {
            jsonrpc: String::from_str(PROTOCOL_VERSION),
            id,
            method,
            params,
        }
    }

    /// A request made of the given members as received, whatever version it names.
    pub fn from_parts(
        jsonrpc: String,
        id: Option<Id>,
        method: Option<String>,
        params: Option<String>,
    ) -> (r: Self)
        ensures
            r@ == (RequestView {
                jsonrpc: jsonrpc@,
                id: opt_id_view(id),
                method: opt_str_view(method),
                params: opt_str_view(params),
            }),
    {
        JsonRPCRequestObject { jsonrpc, id, method, params }
    }

    /// The protocol version.
    pub fn jsonrpc(&self) -> (r: &str)
        ensures
            r@ == self@.jsonrpc,
    {
        self.jsonrpc.as_str()
    }

    /// The identifier, absent for a notification.
    pub fn id(&self) -> (r: &Option<Id>)
        ensures
            opt_id_view(*r) == self@.id,
    {
        &self.id
    }

    /// The name of the method to invoke.
    pub fn method(&self) -> (r: &Option<String>)
        ensures
            opt_str_view(*r) == self@.method,
    {
        &self.method
    }

    /// The parameter payload.
    pub fn params(&self) -> (r: &Option<String>)
        ensures
            opt_str_view(*r) == self@.params,
    {
        &self.params
    }

    /// Whether this request is a notification: it has no identifier, so no response is owed.
    pub fn is_notification(&self) -> (r: bool)
        ensures
            r == self@.is_notification(),
    {
        self.id.is_none()
    }

    /// Whether the receiver owes a response carrying this request's identifier.
    pub fn expects_response(&self) -> (r: bool)
        ensures
            r == !self@.is_notification(),
    {
        self.id.is_some()
    }

    /// Whether the request names a method reserved for rpc-internal use.
    pub fn has_reserved_method(&self) -> (r: bool)
        ensures
            r == (self@.method is Some && is_reserved_name(self@.method->0)),
    {
        match &self.method {
            Some(m) => is_reserved_method(m.as_str()),
            None => false,
        }
    }

    /// Checks the request: version "2.0", a non-empty method name that is not reserved.
    /// Anything else is an invalid request.
    pub fn validate(&self) -> (r: Result<(), ErrorKind>)
        ensures
            r is Ok <==> self@.is_valid(),
            r is Err ==> r == Err::<(), ErrorKind>(ErrorKind::InvalidRequest),
    {
        if !is_protocol_version(self.jsonrpc.as_str()) {
            return Err(ErrorKind::InvalidRequest);
        }
        match &self.method {
            Some(m) => {
                if m.as_str().unicode_len() == 0 || is_reserved_method(m.as_str()) {
                    Err(ErrorKind::InvalidRequest)
                } else {
                    Ok(())
                }
            },
            None => Err(ErrorKind::InvalidRequest),
        }
    }
}

/// A request without an identifier is a notification, and no response is owed for it.
pub proof fn lemma_notification_without_id(r: RequestView)
    requires
        r.id is None,
    ensures
        r.is_notification(),
{
}

/// A method name that begins with `rpc.` is reserved, and a request naming it is invalid.
pub proof fn lemma_reserved_method_rejected(r: RequestView)
    requires
        r.method is Some,
        r.method->0.len() >= 4,
        r.method->0.subrange(0, 4) == seq!['r', 'p', 'c', '.'],
    ensures
        is_reserved_name(r.method->0),
        !r.is_valid(),
{
    assert(r.method->0.subrange(0, 4) =~= reserved_prefix());
}

} // verus!
