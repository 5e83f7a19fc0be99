use jsonrpc::error::ErrorKind;
use jsonrpc::request::{is_protocol_version, is_reserved_method, Id, JsonRPCRequestObject};

#[test]
fn request_without_id_is_notification() {
    let r = JsonRPCRequestObject::new(None, Some(String::from("update")), None);
    assert!(r.is_notification());
    assert!(!r.expects_response());
}

#[test]
fn request_with_id_expects_response() {
    let r = JsonRPCRequestObject::new(Some(Id::Number(1)), Some(String::from("sum")), None);
    assert!(!r.is_notification());
    assert!(r.expects_response());
    assert_eq!(r.jsonrpc(), "2.0");
}

#[test]
fn reserved_method_names() {
    assert!(is_reserved_method("rpc.discover"));
    assert!(is_reserved_method("rpc."));
    assert!(!is_reserved_method("rpc"));
    assert!(!is_reserved_method("rpcx.foo"));
    assert!(!is_reserved_method("subtract"));
    assert!(!is_reserved_method(""));
    assert!(!is_reserved_method("RPC.foo"));
    let r = JsonRPCRequestObject::new(None, Some(String::from("rpc.ping")), None);
    assert!(r.has_reserved_method());
    let r = JsonRPCRequestObject::new(None, None, None);
    assert!(!r.has_reserved_method());
}

#[test]
fn protocol_version() {
    assert!(is_protocol_version("2.0"));
    assert!(!is_protocol_version("1.0"));
    assert!(!is_protocol_version("2.00"));
    assert!(!is_protocol_version(""));
}

#[test]
fn validation() {
    let ok = JsonRPCRequestObject::new(
        Some(Id::String(String::from("a"))),
        Some(String::from("subtract")),
        Some(String::from("[42, 23]")),
    );
    assert_eq!(ok.validate(), Ok(()));

    let reserved = JsonRPCRequestObject::new(None, Some(String::from("rpc.x")), None);
    assert_eq!(reserved.validate(), Err(ErrorKind::InvalidRequest));

    let empty = JsonRPCRequestObject::new(None, Some(String::new()), None);
    assert_eq!(empty.validate(), Err(ErrorKind::InvalidRequest));

    let missing = JsonRPCRequestObject::new(None, None, None);
    assert_eq!(missing.validate(), Err(ErrorKind::InvalidRequest));

    let old = JsonRPCRequestObject::from_parts(
        String::from("1.0"),
        None,
        Some(String::from("subtract")),
        None,
    );
    assert_eq!(old.validate(), Err(ErrorKind::InvalidRequest));
}

#[test]
fn request_members() {
    let r = JsonRPCRequestObject::new(
        Some(Id::Number(7)),
        Some(String::from("m")),
        Some(String::from("{}")),
    );
    assert!(matches!(r.id(), Some(Id::Number(7))));
    assert_eq!(r.method().as_deref(), Some("m"));
    assert_eq!(r.params().as_deref(), Some("{}"));
}
