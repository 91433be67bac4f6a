use oxidoc::document::Document;

#[test]
fn document_is_kept_as_compact_json() {
    let document = Document::parse(" { \"name\" : \"a\" , \"tags\" : [ 1 , 2 ] } ").unwrap();
    assert_eq!(document.as_str(), "{\"name\":\"a\",\"tags\":[1,2]}");
    assert_eq!(document.to_vec(), b"{\"name\":\"a\",\"tags\":[1,2]}".to_vec());
}

#[test]
fn document_agrees_with_serde_json() {
    let text = "{\"b\":[true,null,1.5,\"x\\ny\"],\"a\":{\"deep\":-3}}";
    let value: serde_json::Value = serde_json::from_str(text).unwrap();
    let document = Document::parse(text).unwrap();
    assert_eq!(document.as_str(), value.to_string());
    assert_eq!(serde_json::from_str::<serde_json::Value>(document.as_str()).unwrap(), value);
}

#[test]
fn any_json_value_is_a_document() {
    for text in ["null", "true", "0", "-1.5e3", "\"text\"", "[]", "{}"] {
        assert!(Document::parse(text).is_ok());
    }
    assert_eq!(Document::parse("-1.5e3").unwrap().as_str(), "-1500.0");
}

#[test]
fn documents_are_equal_when_their_values_are() {
    let left = Document::parse("{\"a\":1,\"b\":2}").unwrap();
    let right = Document::parse("{ \"b\": 2, \"a\": 1 }").unwrap();
    assert_eq!(left, right);
    assert_eq!(left.duplicate(), left);
    assert_ne!(left, Document::parse("{\"a\":1}").unwrap());
}

#[test]
fn malformed_json_is_refused_with_the_reason() {
    let error = Document::parse("not json").unwrap_err();
    assert_eq!(error.message, "expected ident at line 1 column 2");
    let error = Document::parse("").unwrap_err();
    assert_eq!(error.message, "EOF while parsing a value at line 1 column 0");
    let error = Document::parse("{\"a\":1} x").unwrap_err();
    assert_eq!(error.message, "trailing characters at line 1 column 9");
}

#[test]
fn from_slice_refuses_bytes_that_are_not_utf8() {
    assert!(Document::from_slice(&[b'"', 0xff, b'"']).is_err());
    assert_eq!(Document::from_slice(b"[1, 2]").unwrap().as_str(), "[1,2]");
}
