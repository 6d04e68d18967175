use chacrab::errors::ChacrabError;
use chacrab::json::{find_member, render_array, render_object, string_literal, JsonMember};
use chacrab::models::Timestamp;
use chacrab::payload::EncryptedPayload;

fn text(bytes: Vec<u8>) -> String {
    String::from_utf8(bytes).expect("payload json is text")
}

#[test]
fn password_payload_is_an_object_of_three_members() {
    let payload = EncryptedPayload::for_password("s3cret".to_owned(), Some("note".to_owned()));
    assert_eq!(
        text(payload.to_json()),
        "{\"password\":\"s3cret\",\"notes\":\"note\",\"custom_fields\":{}}"
    );
    let payload = EncryptedPayload::for_note("line\nbreak \\ \"quoted\" \u{1}".to_owned());
    assert_eq!(
        text(payload.to_json()),
        "{\"password\":null,\"notes\":\"line\\nbreak \\\\ \\\"quoted\\\" \\u0001\",\"custom_fields\":{}}"
    );
}

#[test]
fn payload_is_read_back_from_its_json() {
    let mut payload = EncryptedPayload::for_password("p\u{00e4}ss".to_owned(), None);
    payload.custom_fields.push(JsonMember { key: "pin".to_owned(), value: "1234".to_owned() });
    payload.custom_fields.push(JsonMember {
        key: "tags".to_owned(),
        value: "[\"a\",{\"b\":null}]".to_owned(),
    });
    let read = EncryptedPayload::from_json(&payload.to_json()).expect("reads");
    assert_eq!(read.password.as_deref(), Some("p\u{00e4}ss"));
    assert!(read.notes.is_none());
    assert_eq!(read.custom_fields.len(), 2);
    let pin = find_member(&read.custom_fields, "pin").expect("kept");
    assert_eq!(read.custom_fields[pin].value, "1234");
    let tags = find_member(&read.custom_fields, "tags").expect("kept");
    assert_eq!(read.custom_fields[tags].value, "[\"a\",{\"b\":null}]");
}

#[test]
fn payload_takes_absent_and_null_strings() {
    let read = EncryptedPayload::from_json(b"{\"custom_fields\":{}}").expect("reads");
    assert!(read.password.is_none());
    assert!(read.notes.is_none());
    let read = EncryptedPayload::from_json(
        b" {\"notes\": \"n\", \"extra\": 1, \"password\": null, \"custom_fields\": {\"k\": true}} ",
    )
    .expect("reads");
    assert_eq!(read.notes.as_deref(), Some("n"));
    assert_eq!(read.custom_fields.len(), 1);
    assert_eq!(read.custom_fields[0].key, "k");
    assert_eq!(read.custom_fields[0].value, "true");
}

#[test]
fn documents_that_are_no_payload_fail_with_serialization() {
    for document in [
        &b""[..],
        &b"null"[..],
        &b"[1,2]"[..],
        &b"{\"password\":\"p\",\"notes\":null}"[..],
        &b"{\"password\":1,\"notes\":null,\"custom_fields\":{}}"[..],
        &b"{\"password\":null,\"notes\":[],\"custom_fields\":{}}"[..],
        &b"{\"password\":null,\"notes\":null,\"custom_fields\":null}"[..],
        &b"{\"password\":null,\"notes\":null,\"custom_fields\":[]}"[..],
        &b"{\"password\":null,\"notes\":null,\"custom_fields\":{}"[..],
        &b"\xff\xfe"[..],
    ] {
        assert!(matches!(
            EncryptedPayload::from_json(document),
            Err(ChacrabError::Serialization)
        ));
    }
}

#[test]
fn audit_event_is_appended_to_an_existing_trail() {
    let mut payload = EncryptedPayload::for_note("n".to_owned());
    payload.custom_fields.push(JsonMember {
        key: "_audit".to_owned(),
        value: "[{\"action\":\"old\",\"at\":\"then\"}]".to_owned(),
    });
    payload.custom_fields.push(JsonMember { key: "z".to_owned(), value: "0".to_owned() });
    payload.append_audit_event("update_note", Timestamp::new(86_400, 0).expect("in range"));
    assert_eq!(payload.custom_fields.len(), 2);
    assert_eq!(payload.custom_fields[0].key, "_audit");
    assert_eq!(
        payload.custom_fields[0].value,
        "[{\"action\":\"old\",\"at\":\"then\"},{\"action\":\"update_note\",\"at\":\"1970-01-02T00:00:00+00:00\"}]"
    );
    assert_eq!(payload.custom_fields[1].value, "0");
    assert_eq!(payload.notes.as_deref(), Some("n"));
}

#[test]
fn first_audit_event_creates_the_trail() {
    let mut payload = EncryptedPayload::for_password("p".to_owned(), None);
    payload.append_audit_event("update_password", Timestamp::new(0, 0).expect("in range"));
    assert_eq!(payload.custom_fields.len(), 1);
    assert_eq!(payload.custom_fields[0].key, "_audit");
    assert_eq!(
        payload.custom_fields[0].value,
        "[{\"action\":\"update_password\",\"at\":\"1970-01-01T00:00:00+00:00\"}]"
    );
}

#[test]
fn trail_of_twenty_drops_its_oldest_event() {
    let mut payload = EncryptedPayload::for_note("n".to_owned());
    let events: Vec<String> = (0..20).map(|i| format!("{}", i)).collect();
    payload.custom_fields.push(JsonMember { key: "_audit".to_owned(), value: render_array(&events) });
    payload.append_audit_event("update_note", Timestamp::new(0, 0).expect("in range"));
    let kept: Vec<serde_json::Value> =
        serde_json::from_str(&payload.custom_fields[0].value).expect("array");
    assert_eq!(kept.len(), 20);
    assert_eq!(kept[0], 1);
    assert_eq!(kept[18], 19);
    assert_eq!(kept[19]["action"], "update_note");
}

#[test]
fn copy_of_a_payload_is_equal() {
    let mut payload = EncryptedPayload::for_password("p".to_owned(), Some("n".to_owned()));
    payload.custom_fields.push(JsonMember { key: "k".to_owned(), value: "1".to_owned() });
    let copy = payload.clone();
    assert_eq!(copy.to_json(), payload.to_json());
}

#[test]
fn objects_and_arrays_are_joined_with_commas() {
    assert_eq!(render_object(&Vec::new()), "{}");
    assert_eq!(render_array(&Vec::new()), "[]");
    assert_eq!(render_array(&vec!["1".to_owned()]), "[1]");
    assert_eq!(render_array(&vec!["1".to_owned(), "\"a\"".to_owned()]), "[1,\"a\"]");
    assert_eq!(
        render_object(&vec![
            JsonMember { key: "a b".to_owned(), value: "1".to_owned() },
            JsonMember { key: "c\"".to_owned(), value: "[]".to_owned() },
        ]),
        "{\"a b\":1,\"c\\\"\":[]}"
    );
    assert_eq!(string_literal("tab\there"), "\"tab\\there\"");
}

#[test]
fn last_member_with_a_key_is_found() {
    let members = vec![
        JsonMember { key: "a".to_owned(), value: "1".to_owned() },
        JsonMember { key: "b".to_owned(), value: "2".to_owned() },
        JsonMember { key: "a".to_owned(), value: "3".to_owned() },
    ];
    assert_eq!(find_member(&members, "a"), Some(2));
    assert_eq!(find_member(&members, "b"), Some(1));
    assert_eq!(find_member(&members, "c"), None);
    assert_eq!(find_member(&Vec::new(), "a"), None);
}

#[test]
fn payload_read_from_an_object_with_a_repeated_key_holds_the_key_once() {
    let read = EncryptedPayload::from_json(
        b"{\"password\":null,\"notes\":null,\"custom_fields\":{\"k\":1,\"j\":2,\"k\":3}}",
    )
    .expect("reads");
    assert_eq!(read.custom_fields.len(), 2);
    let k = find_member(&read.custom_fields, "k").expect("kept");
    assert_eq!(read.custom_fields[k].value, "3");
    let j = find_member(&read.custom_fields, "j").expect("kept");
    assert_eq!(read.custom_fields[j].value, "2");
}

#[test]
fn audit_event_leaves_the_other_fields_and_adds_no_second_trail() {
    let mut payload = EncryptedPayload::for_note("n".to_owned());
    payload.custom_fields.push(JsonMember { key: "a".to_owned(), value: "1".to_owned() });
    payload.append_audit_event("update_note", Timestamp::new(10, 0).expect("in range"));
    payload.custom_fields.push(JsonMember { key: "b".to_owned(), value: "2".to_owned() });
    payload.append_audit_event("update_note", Timestamp::new(20, 0).expect("in range"));
    let keys: Vec<&str> = payload.custom_fields.iter().map(|field| field.key.as_str()).collect();
    assert_eq!(keys, vec!["a", "_audit", "b"]);
    assert_eq!(payload.custom_fields[0].value, "1");
    assert_eq!(payload.custom_fields[2].value, "2");
    let trail: Vec<serde_json::Value> =
        serde_json::from_str(&payload.custom_fields[1].value).expect("array");
    assert_eq!(trail.len(), 2);
}
