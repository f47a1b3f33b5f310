use codr::json::Json;

fn member(key: &str, value: Json) -> (String, Json) {
    (key.to_string(), value)
}

#[test]
fn parse_reads_scalars() {
    assert_eq!(Json::parse(b"null"), Ok(Json::Null));
    assert_eq!(Json::parse(b"true"), Ok(Json::Bool(true)));
    assert_eq!(Json::parse(b"false"), Ok(Json::Bool(false)));
    assert_eq!(Json::parse(b"\"hi\""), Ok(Json::Str("hi".to_string())));
}

#[test]
fn parse_tells_the_three_kinds_of_number_apart() {
    assert_eq!(Json::parse(b"0"), Ok(Json::Uint(0)));
    assert_eq!(Json::parse(b"18446744073709551615"), Ok(Json::Uint(u64::MAX)));
    assert_eq!(Json::parse(b"-1"), Ok(Json::Int(-1)));
    assert_eq!(Json::parse(b"-9223372036854775808"), Ok(Json::Int(i64::MIN)));
    assert_eq!(Json::parse(b"1.5"), Ok(Json::Decimal("1.5".to_string())));
}

#[test]
fn parse_reads_nested_documents() {
    let parsed = Json::parse(b"{\"a\": [1, {\"b\": null}], \"c\": \"x\"}");
    let wanted = Json::Object(vec![
        member(
            "a",
            Json::Array(vec![Json::Uint(1), Json::Object(vec![member("b", Json::Null)])]),
        ),
        member("c", Json::Str("x".to_string())),
    ]);
    assert_eq!(parsed, Ok(wanted));
}

#[test]
fn parse_unescapes_strings() {
    assert_eq!(
        Json::parse(b"\"line\\nbreak \\u0041\""),
        Ok(Json::Str("line\nbreak A".to_string()))
    );
}

#[test]
fn parse_reports_the_reason_of_a_failure() {
    let failed = Json::parse(b"{\"folder_path\":}");
    assert_eq!(failed, Err("expected value at line 1 column 16".to_string()));
    assert!(Json::parse(b"").is_err());
    assert!(Json::parse(b"{} trailing").is_err());
}

#[test]
fn parse_text_agrees_with_parse_of_the_bytes() {
    let text = "{\"k\": \"\u{e9}\"}";
    assert_eq!(Json::parse_text(text), Json::parse(text.as_bytes()));
    assert_eq!(
        Json::parse_text(text),
        Ok(Json::Object(vec![member("k", Json::Str("\u{e9}".to_string()))]))
    );
}

#[test]
fn to_text_writes_compact_json() {
    let doc = Json::Object(vec![
        member("a", Json::Array(vec![Json::Uint(1), Json::Int(-2), Json::Null])),
        member("b", Json::Bool(true)),
        member("c", Json::Str("say \"hi\"\n".to_string())),
    ]);
    assert_eq!(doc.to_text(), "{\"a\":[1,-2,null],\"b\":true,\"c\":\"say \\\"hi\\\"\\n\"}");
}

#[test]
fn to_text_writes_a_decimal_as_its_number() {
    assert_eq!(Json::Decimal("1.5".to_string()).to_text(), "1.5");
    assert_eq!(Json::Array(vec![Json::Decimal("2.25".to_string())]).to_text(), "[2.25]");
}

#[test]
fn to_text_writes_a_non_negative_int_as_unsigned() {
    assert_eq!(Json::Int(7).to_text(), "7");
    assert_eq!(Json::parse_text(&Json::Int(7).to_text()), Ok(Json::Uint(7)));
}

#[test]
fn text_written_reads_back() {
    let doc = Json::Object(vec![
        member("files", Json::Array(vec![Json::Str("a.rs".to_string())])),
        member("folders", Json::Array(vec![])),
    ]);
    assert_eq!(Json::parse_text(&doc.to_text()), Ok(doc));
}

#[test]
fn constructors_hold_what_they_are_given() {
    assert_eq!(Json::string("x"), Json::Str("x".to_string()));
    assert_eq!(Json::array(vec![Json::Null]), Json::Array(vec![Json::Null]));
    assert_eq!(
        Json::object(vec![member("k", Json::Null)]),
        Json::Object(vec![member("k", Json::Null)])
    );
}

#[test]
fn get_finds_the_first_member_of_a_key() {
    let doc = Json::Object(vec![
        member("a", Json::Uint(1)),
        member("b", Json::Null),
        member("a", Json::Uint(2)),
    ]);
    assert_eq!(doc.get("a"), Some(&Json::Uint(1)));
    assert_eq!(doc.get("b"), Some(&Json::Null));
    assert_eq!(doc.get("c"), None);
    assert_eq!(Json::Array(vec![]).get("a"), None);
}

#[test]
fn get_present_counts_null_as_missing() {
    let doc = Json::Object(vec![member("a", Json::Uint(1)), member("b", Json::Null)]);
    assert_eq!(doc.get_present("a"), Some(&Json::Uint(1)));
    assert_eq!(doc.get_present("b"), None);
    assert_eq!(doc.get_present("c"), None);
}

#[test]
fn accessors_give_only_the_matching_kind() {
    assert_eq!(Json::Str("x".to_string()).as_str(), Some(&"x".to_string()));
    assert_eq!(Json::Bool(true).as_str(), None);
    assert_eq!(Json::Bool(false).as_bool(), Some(false));
    assert_eq!(Json::Null.as_bool(), None);
}

#[test]
fn clone_copies_the_whole_document() {
    let doc = Json::Object(vec![member(
        "a",
        Json::Array(vec![Json::Decimal("0.5".to_string()), Json::Str("s".to_string())]),
    )]);
    assert_eq!(doc.clone(), doc);
}
