use woof::codec::{encode_key, id_from_path, id_path, segment_name, KeyValue, PathParams};
use woof::error::Error;
use woof::value::{same_text, Value, ValueKind};
use woof::{posts, users, votes, Rest};

const POST_ID: u128 = 0xa1a2a3a4_b1b2_c1c2_d1d2_d3d4d5d6d7d8;
const USER_ID: u128 = 0x67e55044_10b1_426f_9247_bb680e5fe0c8;

fn path(entries: &[(&str, &str)]) -> PathParams {
    let mut p = PathParams::new();
    for (name, segment) in entries {
        p.add(name, segment);
    }
    p
}

#[test]
fn single_key_template_has_one_placeholder() {
    assert_eq!(posts::RestModel::id_path(None), "{id}");
    assert_eq!(users::RestModel::id_path(None), "{id}");
}

#[test]
fn composite_key_template_has_placeholders_in_declared_order() {
    assert_eq!(votes::RestModel::id_path(None), "{post}/{voter}");
}

#[test]
fn scoped_template_prefixes_each_name() {
    assert_eq!(posts::RestModel::id_path(Some("post")), "{post_id}");
    assert_eq!(votes::RestModel::id_path(Some("v")), "{v_post}/{v_voter}");
    assert_eq!(id_path(&votes::descriptor(), Some("x")), "{x_post}/{x_voter}");
}

#[test]
fn segment_name_with_and_without_scope() {
    assert_eq!(segment_name(None, "id"), "id");
    assert_eq!(segment_name(Some("post"), "id"), "post_id");
}

#[test]
fn uuid_text_is_hyphenated_lowercase() {
    assert_eq!(Value::Uuid(POST_ID).text(), "a1a2a3a4-b1b2-c1c2-d1d2-d3d4d5d6d7d8");
    assert_eq!(Value::Uuid(0).text(), "00000000-0000-0000-0000-000000000000");
    assert_eq!(Value::Bool(true).text(), "true");
    assert_eq!(Value::Text("abc".to_string()).text(), "abc");
}

#[test]
fn uuid_segment_parses_in_each_form() {
    let expected = Some(Value::Uuid(POST_ID));
    assert_eq!(Value::parse(ValueKind::Uuid, "a1a2a3a4-b1b2-c1c2-d1d2-d3d4d5d6d7d8"), expected);
    assert_eq!(Value::parse(ValueKind::Uuid, "A1A2A3A4-B1B2-C1C2-D1D2-D3D4D5D6D7D8"), expected);
    assert_eq!(Value::parse(ValueKind::Uuid, "a1a2a3a4b1b2c1c2d1d2d3d4d5d6d7d8"), expected);
    assert_eq!(Value::parse(ValueKind::Uuid, "{a1a2a3a4-b1b2-c1c2-d1d2-d3d4d5d6d7d8}"), expected);
    assert_eq!(Value::parse(ValueKind::Uuid, "not-a-uuid"), None);
    assert_eq!(Value::parse(ValueKind::Uuid, ""), None);
}

#[test]
fn bool_and_text_segments_parse() {
    assert_eq!(Value::parse(ValueKind::Bool, "true"), Some(Value::Bool(true)));
    assert_eq!(Value::parse(ValueKind::Bool, "false"), Some(Value::Bool(false)));
    assert_eq!(Value::parse(ValueKind::Bool, "yes"), None);
    assert_eq!(Value::parse(ValueKind::Text, "x y"), Some(Value::Text("x y".to_string())));
}

#[test]
fn same_text_compares_characters() {
    assert!(same_text("abc", "abc"));
    assert!(!same_text("abc", "abd"));
}

#[test]
fn decodes_single_key() {
    let p = path(&[("id", "a1a2a3a4-b1b2-c1c2-d1d2-d3d4d5d6d7d8")]);
    let key = posts::RestModel::id_from_path(None, &p).unwrap();
    assert_eq!(key.values, vec![Value::Uuid(POST_ID)]);
}

#[test]
fn decodes_composite_key_in_declared_order() {
    let p = path(&[
        ("voter", "67e55044-10b1-426f-9247-bb680e5fe0c8"),
        ("post", "a1a2a3a4-b1b2-c1c2-d1d2-d3d4d5d6d7d8"),
    ]);
    let key = votes::RestModel::id_from_path(None, &p).unwrap();
    assert_eq!(key.values, vec![Value::Uuid(POST_ID), Value::Uuid(USER_ID)]);
}

#[test]
fn decodes_scoped_key() {
    let p = path(&[("post_id", "a1a2a3a4-b1b2-c1c2-d1d2-d3d4d5d6d7d8"), ("id", "junk")]);
    let key = posts::RestModel::id_from_path(Some("post"), &p).unwrap();
    assert_eq!(key.values, vec![Value::Uuid(POST_ID)]);
}

#[test]
fn missing_segment_fails_with_its_name() {
    let p = path(&[("post", "a1a2a3a4-b1b2-c1c2-d1d2-d3d4d5d6d7d8")]);
    match votes::RestModel::id_from_path(None, &p) {
        Err(Error::MissingPathSegment(name)) => assert_eq!(name, "voter"),
        other => panic!("unexpected {:?}", other),
    }
    let empty = PathParams::new();
    match posts::RestModel::id_from_path(None, &empty) {
        Err(Error::MissingPathSegment(name)) => assert_eq!(name, "id"),
        other => panic!("unexpected {:?}", other),
    }
}

#[test]
fn invalid_segment_fails_with_its_name() {
    let p = path(&[("post", "POST_ID"), ("voter", "67e55044-10b1-426f-9247-bb680e5fe0c8")]);
    match votes::RestModel::id_from_path(None, &p) {
        Err(Error::InvalidPathSegment(name)) => assert_eq!(name, "post"),
        other => panic!("unexpected {:?}", other),
    }
}

#[test]
fn first_failing_column_decides_the_error() {
    let p = path(&[("post", "nope")]);
    match votes::RestModel::id_from_path(None, &p) {
        Err(Error::InvalidPathSegment(name)) => assert_eq!(name, "post"),
        other => panic!("unexpected {:?}", other),
    }
    let q = path(&[("voter", "nope")]);
    match votes::RestModel::id_from_path(None, &q) {
        Err(Error::MissingPathSegment(name)) => assert_eq!(name, "post"),
        other => panic!("unexpected {:?}", other),
    }
}

#[test]
fn encode_then_decode_round_trips() {
    let desc = votes::descriptor();
    let key = KeyValue { values: vec![Value::Uuid(POST_ID), Value::Uuid(USER_ID)] };
    let p = encode_key(&desc, None, &key);
    assert_eq!(p.entries.len(), 2);
    assert_eq!(p.entries[0], ("post".to_string(), "a1a2a3a4-b1b2-c1c2-d1d2-d3d4d5d6d7d8".to_string()));
    assert_eq!(p.entries[1], ("voter".to_string(), "67e55044-10b1-426f-9247-bb680e5fe0c8".to_string()));
    let back = id_from_path(&desc, None, &p).unwrap();
    assert_eq!(back.values, key.values);
}

#[test]
fn encode_with_scope_round_trips() {
    let desc = posts::descriptor();
    let key = KeyValue { values: vec![Value::Uuid(USER_ID)] };
    let p = encode_key(&desc, Some("post"), &key);
    assert_eq!(p.entries[0].0, "post_id");
    assert_eq!(id_from_path(&desc, Some("post"), &p).unwrap().values, key.values);
}

#[test]
fn path_lookup_takes_first_match() {
    let p = path(&[("id", "first"), ("id", "second")]);
    assert_eq!(p.get("id"), Some("first".to_string()));
    assert_eq!(p.get("other"), None);
}
