use erenflow::json::number::{JsonNumber, NumberKind};
use erenflow::json::value::{JsonObject, JsonValue};
use erenflow::validation::{check_pattern, StateValidator, ValidationError};

fn str_value(s: &str) -> JsonValue {
    JsonValue::String(s.to_string())
}

fn num_value(n: i64) -> JsonValue {
    JsonValue::Number(JsonNumber::from_i64(n))
}

fn obj_value(pairs: Vec<(&str, JsonValue)>) -> JsonValue {
    let mut o = JsonObject::new();
    for (k, v) in pairs {
        o.insert(k.to_string(), v);
    }
    JsonValue::Object(o)
}

fn arr_value(items: Vec<JsonValue>) -> JsonValue {
    JsonValue::Array(items)
}

#[test]
fn test_string_validation() {
    let schema = obj_value(vec![("type", str_value("string")), ("minLength", num_value(3)), ("maxLength", num_value(10))]);

    let validator = StateValidator::new(schema).unwrap();

    // Valid
    assert!(validator.validate(&JsonValue::String("hello".to_string())).is_ok());

    // Too short
    assert!(validator.validate(&JsonValue::String("ab".to_string())).is_err());

    // Too long
    assert!(validator.validate(&JsonValue::String("12345678901".to_string())).is_err());

    // Wrong type
    assert!(validator.validate(&num_value(123)).is_err());
}

#[test]
fn test_number_validation() {
    let schema = obj_value(vec![("type", str_value("integer")), ("minimum", num_value(0)), ("maximum", num_value(100))]);

    let validator = StateValidator::new(schema).unwrap();

    // Valid
    assert!(validator.validate(&num_value(50)).is_ok());

    // Below minimum
    assert!(validator.validate(&num_value(-1)).is_err());

    // Above maximum
    assert!(validator.validate(&num_value(101)).is_err());
}

#[test]
fn test_object_validation() {
    let schema = obj_value(vec![
        ("type", str_value("object")),
        ("properties", obj_value(vec![("name", obj_value(vec![("type", str_value("string"))])), ("age", obj_value(vec![("type", str_value("integer"))]))])),
        ("required", arr_value(vec![str_value("name")])),
    ]);

    let validator = StateValidator::new(schema).unwrap();

    // Valid
    assert!(validator.validate(&obj_value(vec![("name", str_value("Alice")), ("age", num_value(30))])).is_ok());

    // Missing required field
    assert!(validator.validate(&obj_value(vec![("age", num_value(30))])).is_err());

    // Wrong type
    assert!(validator.validate(&obj_value(vec![("name", num_value(123))])).is_err());
}

#[test]
fn test_array_validation() {
    let schema = obj_value(vec![
        ("type", str_value("array")),
        ("items", obj_value(vec![("type", str_value("string"))])),
        ("minItems", num_value(1)),
        ("maxItems", num_value(3)),
    ]);

    let validator = StateValidator::new(schema).unwrap();

    // Valid
    assert!(validator.validate(&arr_value(vec![str_value("a"), str_value("b")])).is_ok());

    // Too few items
    assert!(validator.validate(&arr_value(vec![])).is_err());

    // Too many items
    assert!(validator.validate(&arr_value(vec![str_value("a"), str_value("b"), str_value("c"), str_value("d")])).is_err());

    // Wrong item type
    assert!(validator.validate(&arr_value(vec![str_value("a"), num_value(123)])).is_err());
}

#[test]
fn test_required_fields() {
    let schema = obj_value(vec![
        ("type", str_value("object")),
        ("properties", obj_value(vec![("email", obj_value(vec![("type", str_value("string"))])), ("age", obj_value(vec![("type", str_value("integer"))]))])),
        ("required", arr_value(vec![str_value("email")])),
    ]);

    let validator = StateValidator::new(schema).unwrap();
    let required = validator.required_fields();

    assert!(required.contains(&"email"));
    assert!(!required.contains(&"age"));
}

fn message_of(r: Result<(), ValidationError>) -> String {
    r.unwrap_err().message()
}

#[test]
fn schema_must_be_an_object() {
    let err = StateValidator::new(str_value("string")).err().unwrap();
    assert_eq!(err.message(), "Invalid schema: Schema must be a JSON object");
    assert!(StateValidator::new(JsonValue::Null).is_err());
    assert!(StateValidator::new(obj_value(vec![])).is_ok());
}

#[test]
fn string_messages_give_byte_lengths() {
    let schema = obj_value(vec![("type", str_value("string")), ("minLength", num_value(3)), ("maxLength", num_value(4))]);
    let v = StateValidator::new(schema).unwrap();
    assert_eq!(
        message_of(v.validate(&str_value("ab"))),
        "Out of range for 'root': Length 2 is less than minimum 3"
    );
    // "héé" is three characters but five bytes
    assert_eq!(
        message_of(v.validate(&str_value("h\u{e9}\u{e9}"))),
        "Out of range for 'root': Length 5 exceeds maximum 4"
    );
    assert_eq!(
        message_of(v.validate(&num_value(7))),
        "Type mismatch in 'root': expected string, got integer"
    );
}

#[test]
fn pattern_is_a_regular_expression() {
    let schema = obj_value(vec![("type", str_value("string")), ("pattern", str_value("^a.c$"))]);
    let v = StateValidator::new(schema).unwrap();
    assert!(v.validate(&str_value("abc")).is_ok());
    assert!(v.validate(&str_value("axc")).is_ok());
    assert_eq!(
        message_of(v.validate(&str_value("xabcx"))),
        "Custom validation failed: String 'xabcx' does not match pattern '^a.c$'"
    );
    // an unanchored pattern matches anywhere in the string
    let schema = obj_value(vec![("type", str_value("string")), ("pattern", str_value("ust"))]);
    let v = StateValidator::new(schema).unwrap();
    assert!(v.validate(&str_value("Rust")).is_ok());
    assert!(v.validate(&str_value("Go")).is_err());
}

#[test]
fn invalid_pattern_is_an_invalid_schema() {
    let schema = obj_value(vec![("type", str_value("string")), ("pattern", str_value("a("))]);
    let v = StateValidator::new(schema).unwrap();
    assert_eq!(message_of(v.validate(&str_value("a("))), "Invalid schema: Invalid pattern 'a('");
}

#[test]
fn pattern_outcomes_for_each_match_result() {
    assert!(check_pattern("abc", "^a.c$", Some(true)).is_ok());
    assert_eq!(
        message_of(check_pattern("abd", "^a.c$", Some(false))),
        "Custom validation failed: String 'abd' does not match pattern '^a.c$'"
    );
    assert_eq!(message_of(check_pattern("abc", "(", None)), "Invalid schema: Invalid pattern '('");
}

#[test]
fn number_bounds_and_messages() {
    let schema = obj_value(vec![
        ("type", str_value("number")),
        ("exclusiveMinimum", num_value(0)),
        ("exclusiveMaximum", num_value(10)),
    ]);
    let v = StateValidator::new(schema).unwrap();
    assert!(v.validate(&num_value(5)).is_ok());
    assert_eq!(
        message_of(v.validate(&num_value(0))),
        "Out of range for 'root': Value 0 is not greater than 0"
    );
    assert_eq!(
        message_of(v.validate(&num_value(10))),
        "Out of range for 'root': Value 10 is not less than 10"
    );
    // 2.5 = 5 * 2^-1
    let half = JsonValue::Number(JsonNumber::new(NumberKind::Float, 5, -1, "2.5".to_string()));
    assert!(v.validate(&half).is_ok());
    assert_eq!(
        message_of(v.validate(&str_value("x"))),
        "Type mismatch in 'root': expected number, got string"
    );
}

#[test]
fn integer_schema_rejects_fractions() {
    let schema = obj_value(vec![("type", str_value("integer")), ("maximum", num_value(100))]);
    let v = StateValidator::new(schema).unwrap();
    let half = JsonValue::Number(JsonNumber::new(NumberKind::Float, 5, -1, "2.5".to_string()));
    assert_eq!(
        message_of(v.validate(&half)),
        "Type mismatch in 'root': expected integer, got float"
    );
    // 4.0 written as a float is whole
    let four = JsonValue::Number(JsonNumber::new(NumberKind::Float, 1, 2, "4".to_string()));
    assert!(v.validate(&four).is_ok());
    // 200.0 = 25 * 2^3 exceeds the maximum
    let big = JsonValue::Number(JsonNumber::new(NumberKind::Float, 25, 3, "200".to_string()));
    assert_eq!(
        message_of(v.validate(&big)),
        "Out of range for 'root': Value 200 exceeds maximum 100"
    );
    let low = obj_value(vec![("type", str_value("integer")), ("minimum", num_value(3))]);
    let v = StateValidator::new(low).unwrap();
    assert_eq!(
        message_of(v.validate(&num_value(-4))),
        "Out of range for 'root': Value -4 is less than minimum 3"
    );
}

#[test]
fn array_item_failures_name_the_index() {
    let schema = obj_value(vec![("type", str_value("array")), ("items", obj_value(vec![("type", str_value("string"))]))]);
    let v = StateValidator::new(schema).unwrap();
    let err = v.validate(&arr_value(vec![str_value("a"), num_value(123)])).unwrap_err();
    match &err {
        ValidationError::ArrayValidationFailed { field, index, message } => {
            assert_eq!(field, "root");
            assert_eq!(*index, 1);
            assert_eq!(message, "Expected string, got integer");
        }
        other => panic!("unexpected {:?}", other),
    }
    assert_eq!(
        err.message(),
        "Array validation failed for 'root[1]': Expected string, got integer"
    );
    let counted = obj_value(vec![("type", str_value("array")), ("minItems", num_value(2))]);
    let v = StateValidator::new(counted).unwrap();
    assert_eq!(
        message_of(v.validate(&arr_value(vec![num_value(1)]))),
        "Out of range for 'root': Array length 1 is less than minimum 2"
    );
}

#[test]
fn nested_item_failures_are_wrapped_with_their_message() {
    let inner = obj_value(vec![("type", str_value("array")), ("maxItems", num_value(1))]);
    let schema = obj_value(vec![("type", str_value("array")), ("items", inner)]);
    let v = StateValidator::new(schema).unwrap();
    let data = arr_value(vec![arr_value(vec![]), arr_value(vec![num_value(1), num_value(2)])]);
    assert_eq!(
        message_of(v.validate(&data)),
        "Array validation failed for 'root[1]': Out of range for 'root[1]': Array length 2 exceeds maximum 1"
    );
}

#[test]
fn object_paths_and_required_fields() {
    let address = obj_value(vec![
        ("type", str_value("object")),
        ("properties", obj_value(vec![("zip", obj_value(vec![("type", str_value("integer"))]))])),
        ("required", arr_value(vec![str_value("city")])),
    ]);
    let schema = obj_value(vec![
        ("type", str_value("object")),
        ("properties", obj_value(vec![("address", address)])),
    ]);
    let v = StateValidator::new(schema).unwrap();
    assert_eq!(
        message_of(v.validate(&obj_value(vec![("address", obj_value(vec![]))]))),
        "Missing required field: 'address.city'"
    );
    assert_eq!(
        message_of(v.validate(&obj_value(vec![("address", obj_value(vec![("city", str_value("Oslo")), ("zip", str_value("x"))]))]))),
        "Type mismatch in 'address.zip': expected integer, got string"
    );
    assert_eq!(
        message_of(v.validate(&num_value(1))),
        "Type mismatch in 'root': expected object, got integer"
    );
}

#[test]
fn properties_are_checked_in_key_order() {
    let schema = obj_value(vec![
        ("type", str_value("object")),
        ("properties", obj_value(vec![("b", obj_value(vec![("type", str_value("string"))])), ("a", obj_value(vec![("type", str_value("string"))]))])),
    ]);
    let v = StateValidator::new(schema).unwrap();
    assert_eq!(
        message_of(v.validate(&obj_value(vec![("b", num_value(1)), ("a", num_value(2))]))),
        "Type mismatch in 'a': expected string, got integer"
    );
}

#[test]
fn boolean_null_and_unknown_types() {
    let b = StateValidator::new(obj_value(vec![("type", str_value("boolean"))])).unwrap();
    assert!(b.validate(&JsonValue::Bool(true)).is_ok());
    assert_eq!(message_of(b.validate(&JsonValue::Null)), "Type mismatch in 'root': expected boolean, got null");
    let n = StateValidator::new(obj_value(vec![("type", str_value("null"))])).unwrap();
    assert!(n.validate(&JsonValue::Null).is_ok());
    assert_eq!(message_of(n.validate(&arr_value(vec![]))), "Type mismatch in 'root': expected null, got array");
    let u = StateValidator::new(obj_value(vec![("type", str_value("date"))])).unwrap();
    assert_eq!(message_of(u.validate(&JsonValue::Null)), "Invalid schema: Unknown type: date");
}

#[test]
fn enum_is_checked_without_type() {
    let schema = obj_value(vec![("enum", arr_value(vec![str_value("red"), num_value(2)]))]);
    let v = StateValidator::new(schema).unwrap();
    assert!(v.validate(&str_value("red")).is_ok());
    assert!(v.validate(&num_value(2)).is_ok());
    assert_eq!(
        message_of(v.validate(&str_value("blue"))),
        "Custom validation failed: Value not in allowed enum values"
    );
    // without type and enum, anything goes
    let any = StateValidator::new(obj_value(vec![])).unwrap();
    assert!(any.validate(&str_value("blue")).is_ok());
}

#[test]
fn validate_field_uses_the_property_schema() {
    let schema = obj_value(vec![
        ("type", str_value("object")),
        ("properties", obj_value(vec![("count", obj_value(vec![("type", str_value("integer")), ("minimum", num_value(1))]))])),
    ]);
    let v = StateValidator::new(schema).unwrap();
    assert!(v.validate_field("count", &num_value(3)).is_ok());
    assert_eq!(
        message_of(v.validate_field("count", &num_value(0))),
        "Out of range for 'count': Value 0 is less than minimum 1"
    );
    assert_eq!(
        message_of(v.validate_field("other", &num_value(0))),
        "Custom validation failed: Field 'other' not in schema"
    );
    let bare = StateValidator::new(obj_value(vec![("type", str_value("object"))])).unwrap();
    assert_eq!(
        message_of(bare.validate_field("count", &num_value(0))),
        "Invalid schema: Schema has no properties"
    );
}

#[test]
fn validation_error_messages() {
    let e = ValidationError::MissingRequired { field: "a.b".to_string() };
    assert_eq!(e.message(), "Missing required field: 'a.b'");
    let e = ValidationError::TypeMismatch { field: "x".to_string(), expected: "string".to_string(), got: "null".to_string() };
    assert_eq!(e.message(), "Type mismatch in 'x': expected string, got null");
    let e = ValidationError::OutOfRange { field: "x".to_string(), message: "too big".to_string() };
    assert_eq!(e.message(), "Out of range for 'x': too big");
    let e = ValidationError::ArrayValidationFailed { field: "list".to_string(), index: 12, message: "bad".to_string() };
    assert_eq!(e.message(), "Array validation failed for 'list[12]': bad");
    let e = ValidationError::CustomValidationFailed { message: "nope".to_string() };
    assert_eq!(e.message(), "Custom validation failed: nope");
    let e = ValidationError::InvalidSchema { message: "broken".to_string() };
    assert_eq!(e.message(), "Invalid schema: broken");
}

#[test]
fn valid_state_passes_field_checks_and_holds_required_fields() {
    let schema = obj_value(vec![
        ("type", str_value("object")),
        (
            "properties",
            obj_value(vec![
                ("name", obj_value(vec![("type", str_value("string")), ("minLength", num_value(2))])),
                ("age", obj_value(vec![("type", str_value("integer")), ("minimum", num_value(0))])),
            ]),
        ),
        ("required", arr_value(vec![str_value("name"), num_value(7), str_value("age")])),
    ]);
    let validator = StateValidator::new(schema).unwrap();
    let data = obj_value(vec![("name", str_value("Bob")), ("age", num_value(3)), ("extra", JsonValue::Null)]);
    assert!(validator.validate(&data).is_ok());
    for field in ["name", "age"] {
        let value = data.get(field).unwrap();
        assert!(validator.validate_field(field, value).is_ok());
    }
    let required = validator.required_fields();
    assert_eq!(required, vec!["name", "age"]);
    for field in required {
        assert!(data.get(field).is_some());
    }
}

#[test]
fn untyped_schema_does_not_check_properties() {
    // without "type": "object" the properties are not checked, so a field
    // can fail validate_field while the whole value passes validate
    let schema = obj_value(vec![(
        "properties",
        obj_value(vec![("a", obj_value(vec![("type", str_value("string"))]))]),
    )]);
    let validator = StateValidator::new(schema).unwrap();
    let data = obj_value(vec![("a", num_value(1))]);
    assert!(validator.validate(&data).is_ok());
    assert!(validator.validate_field("a", &num_value(1)).is_err());
}
