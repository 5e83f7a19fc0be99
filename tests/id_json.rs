use jsonrpc::request::{Id, JsonRPCRequestObject};

fn same(a: &Id, b: &Id) -> bool {
    match (a, b) {
        (Id::String(x), Id::String(y)) => x == y,
        (Id::Number(x), Id::Number(y)) => x == y,
        _ => false,
    }
}

#[test]
fn number_id_round_trip() {
    for n in [0u64, 1, 9, 10, 42, 1000, u64::MAX] {
        let id = Id::Number(n);
        let text = id.to_json();
        assert_eq!(text, n.to_string());
        let back = Id::from_json(&text).unwrap();
        assert!(same(&id, &back));
    }
}

#[test]
fn string_id_round_trip() {
    for s in ["", "abc", "a\"b", "back\\slash", "tab\there", "\u{1}\u{1f}", "héllo ✓", "123"] {
        let id = Id::String(String::from(s));
        let back = Id::from_json(&id.to_json()).unwrap();
        assert!(same(&id, &back));
    }
}

#[test]
fn request_id_round_trip() {
    let r = JsonRPCRequestObject::new(
        Some(Id::String(String::from("req-1"))),
        Some(String::from("sum")),
        None,
    );
    let id = r.id().as_ref().unwrap();
    let back = Id::from_json(&id.to_json()).unwrap();
    assert!(same(id, &back));
    assert!(matches!(back, Id::String(ref s) if s == "req-1"));
}

#[test]
fn string_and_number_stay_distinct() {
    let s = Id::String(String::from("5"));
    let n = Id::Number(5);
    assert_eq!(s.to_json(), "\"5\"");
    assert_eq!(n.to_json(), "5");
    assert!(matches!(Id::from_json("\"5\""), Some(Id::String(ref t)) if t == "5"));
    assert!(matches!(Id::from_json("5"), Some(Id::Number(5))));
}

#[test]
fn string_escapes() {
    assert_eq!(Id::String(String::from("a\"b")).to_json(), "\"a\\\"b\"");
    assert_eq!(Id::String(String::from("a\\b")).to_json(), "\"a\\\\b\"");
    assert_eq!(Id::String(String::from("\n")).to_json(), "\"\\u000a\"");
    assert_eq!(Id::String(String::from("\u{1f}")).to_json(), "\"\\u001f\"");
    assert!(matches!(Id::from_json("\"\\u000a\""), Some(Id::String(ref t)) if t == "\n"));
}

#[test]
fn rejected_texts() {
    for t in [
        "", "\"", "\"abc", "abc\"", "01", "-1", "1.5", "18446744073709551616", "\"a\"b\"",
        "\"\\n\"", "\"\\u000A\"", "\"\\u0020\"", "\"\\x\"", "\"\t\"", "null", " 1",
    ] {
        assert!(Id::from_json(t).is_none(), "accepted {:?}", t);
    }
}

#[test]
fn largest_number() {
    assert!(matches!(
        Id::from_json("18446744073709551615"),
        Some(Id::Number(u64::MAX))
    ));
}
