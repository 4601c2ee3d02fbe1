use rewind::json::{count_of, item_pointer_of, push_decimal, text_of, JsonNode};

#[test]
fn decimal_indices() {
    let mut s = String::from("#");
    push_decimal(&mut s, 0);
    assert_eq!(s, "#0");
    let mut s = String::new();
    push_decimal(&mut s, 1207);
    assert_eq!(s, "1207");
    assert_eq!(item_pointer_of("/data", 12, "id"), "/data/12/id");
}

#[test]
fn node_readings() {
    assert_eq!(count_of(Some(JsonNode::Number(Some(42)))), Some(42));
    assert_eq!(count_of(Some(JsonNode::Number(None))), None);
    assert_eq!(count_of(Some(JsonNode::Str("42".to_string()))), None);
    assert_eq!(count_of(None), None);
    assert_eq!(text_of(Some(JsonNode::Str("hi".to_string()))), Some("hi".to_string()));
    assert_eq!(text_of(Some(JsonNode::Null)), None);
    assert_eq!(text_of(Some(JsonNode::Array(2))), None);
}
