use jsonrpc::error::{ErrorKind, ErrorObject, UndefinedCode};

#[test]
fn server_error_range_is_server_error() {
    for code in -32099..=-32000 {
        assert_eq!(ErrorObject::set(code), Ok(ErrorKind::ServerError(code)));
    }
}

#[test]
fn server_error_range_edges() {
    assert_eq!(ErrorObject::set(-32000), Ok(ErrorKind::ServerError(-32000)));
    assert_eq!(ErrorObject::set(-32099), Ok(ErrorKind::ServerError(-32099)));
    assert_eq!(ErrorObject::set(-32050), Ok(ErrorKind::ServerError(-32050)));
}

#[test]
fn predefined_codes() {
    assert_eq!(ErrorObject::set(-32700), Ok(ErrorKind::ParseError));
    assert_eq!(ErrorObject::set(-32600), Ok(ErrorKind::InvalidRequest));
    assert_eq!(ErrorObject::set(-32601), Ok(ErrorKind::MethodNotFound));
    assert_eq!(ErrorObject::set(-32602), Ok(ErrorKind::InvalidParams));
    assert_eq!(ErrorObject::set(-32603), Ok(ErrorKind::InternalError));
}

#[test]
fn undefined_codes_do_not_crash() {
    for code in [1, -1, -32100, -31999, 0, -32604, -32701, i32::MIN, i32::MAX] {
        assert_eq!(ErrorObject::set(code), Err(UndefinedCode { code }));
    }
}

#[test]
fn kind_codes_and_messages() {
    assert_eq!(ErrorKind::ParseError.code(), -32700);
    assert_eq!(ErrorKind::ServerError(-32001).code(), -32001);
    assert_eq!(ErrorKind::ParseError.message(), "Parse error");
    assert_eq!(ErrorKind::InvalidRequest.message(), "Invalid Request");
    assert_eq!(ErrorKind::MethodNotFound.message(), "Method not found");
    assert_eq!(ErrorKind::InvalidParams.message(), "Invalid params");
    assert_eq!(ErrorKind::InternalError.message(), "Internal error");
    assert_eq!(ErrorKind::ServerError(-32010).message(), "Server error");
}

#[test]
fn error_object_from_code() {
    let e = ErrorObject::new(-32601, Some(String::from("no such method"))).unwrap();
    assert_eq!(e.code(), -32601);
    assert_eq!(e.message(), "Method not found");
    assert_eq!(e.data().as_deref(), Some("no such method"));
    assert_eq!(e.kind(), ErrorKind::MethodNotFound);

    let s = ErrorObject::new(-32042, None).unwrap();
    assert_eq!(s.kind(), ErrorKind::ServerError(-32042));
    assert_eq!(s.message(), "Server error");
    assert!(s.data().is_none());
}

#[test]
fn error_object_undefined_code() {
    assert_eq!(
        ErrorObject::new(-31999, None).err(),
        Some(UndefinedCode { code: -31999 })
    );
}

#[test]
fn error_object_from_kind() {
    let e = ErrorObject::from_kind(ErrorKind::InvalidParams, Some(String::from("x")));
    assert_eq!(e.code(), -32602);
    assert_eq!(e.message(), "Invalid params");
    assert_eq!(e.data().as_deref(), Some("x"));
}
