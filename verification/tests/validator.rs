use mcp_gateway::json::{JNum, Json};
use mcp_gateway::schema::validate_arguments;

fn s(x: &str) -> Json {
    Json::Str(x.to_string())
}

fn n(m: i64, sc: u32) -> Json {
    Json::Num(JNum { m, s: sc })
}

fn obj(ms: Vec<(&str, Json)>) -> Json {
    Json::Obj(ms.into_iter().map(|(k, v)| (k.to_string(), v)).collect())
}

fn arr(vs: Vec<Json>) -> Json {
    Json::Arr(vs)
}

#[test]
fn test_validate_arguments_required_fields() {
    let schema = obj(vec![
        ("type", s("object")),
        (
            "properties",
            obj(vec![
                ("location", obj(vec![("type", s("string"))])),
                ("unit", obj(vec![("type", s("string"))])),
            ]),
        ),
        ("required", arr(vec![s("location")])),
    ]);

    let valid_args = obj(vec![("location", s("Amsterdam")), ("unit", s("celsius"))]);
    assert!(validate_arguments(&valid_args, &schema).is_ok());

    let invalid_args = obj(vec![("unit", s("celsius"))]);
    assert!(validate_arguments(&invalid_args, &schema).is_err());
}

#[test]
fn test_validate_string_enum() {
    let schema = obj(vec![
        ("type", s("object")),
        (
            "properties",
            obj(vec![(
                "unit",
                obj(vec![
                    ("type", s("string")),
                    ("enum", arr(vec![s("celsius"), s("fahrenheit")])),
                ]),
            )]),
        ),
    ]);

    let valid = obj(vec![("unit", s("celsius"))]);
    assert!(validate_arguments(&valid, &schema).is_ok());

    let invalid = obj(vec![("unit", s("kelvin"))]);
    assert!(validate_arguments(&invalid, &schema).is_err());
}

#[test]
fn test_validate_string_length() {
    let schema = obj(vec![
        ("type", s("object")),
        (
            "properties",
            obj(vec![(
                "name",
                obj(vec![
                    ("type", s("string")),
                    ("minLength", n(3, 0)),
                    ("maxLength", n(10, 0)),
                ]),
            )]),
        ),
    ]);

    let valid = obj(vec![("name", s("Alice"))]);
    assert!(validate_arguments(&valid, &schema).is_ok());

    let too_short = obj(vec![("name", s("Al"))]);
    assert!(validate_arguments(&too_short, &schema).is_err());

    let too_long = obj(vec![("name", s("Alexander the Great"))]);
    assert!(validate_arguments(&too_long, &schema).is_err());
}

#[test]
fn test_validate_number_range() {
    let schema = obj(vec![
        ("type", s("object")),
        (
            "properties",
            obj(vec![(
                "age",
                obj(vec![
                    ("type", s("number")),
                    ("minimum", n(0, 0)),
                    ("maximum", n(120, 0)),
                ]),
            )]),
        ),
    ]);

    let valid = obj(vec![("age", n(25, 0))]);
    assert!(validate_arguments(&valid, &schema).is_ok());

    let below = obj(vec![("age", n(-1, 0))]);
    assert!(validate_arguments(&below, &schema).is_err());

    let above = obj(vec![("age", n(150, 0))]);
    assert!(validate_arguments(&above, &schema).is_err());
}

#[test]
fn test_validate_integer() {
    let schema = obj(vec![
        ("type", s("object")),
        ("properties", obj(vec![("count", obj(vec![("type", s("integer"))]))])),
    ]);

    let valid = obj(vec![("count", n(42, 0))]);
    assert!(validate_arguments(&valid, &schema).is_ok());

    let float_val = obj(vec![("count", n(425, 1))]);
    assert!(validate_arguments(&float_val, &schema).is_err());
}

#[test]
fn test_validate_boolean_and_array() {
    let schema = obj(vec![
        ("type", s("object")),
        (
            "properties",
            obj(vec![
                ("active", obj(vec![("type", s("boolean"))])),
                (
                    "tags",
                    obj(vec![
                        ("type", s("array")),
                        ("items", obj(vec![("type", s("string"))])),
                        ("minItems", n(1, 0)),
                        ("maxItems", n(5, 0)),
                    ]),
                ),
            ]),
        ),
    ]);

    let valid = obj(vec![("active", Json::Bool(true))]);
    assert!(validate_arguments(&valid, &schema).is_ok());

    let invalid = obj(vec![("active", s("true"))]);
    assert!(validate_arguments(&invalid, &schema).is_err());

    let valid = obj(vec![("tags", arr(vec![s("rust"), s("wasm")]))]);
    assert!(validate_arguments(&valid, &schema).is_ok());

    let empty = obj(vec![("tags", arr(vec![]))]);
    assert!(validate_arguments(&empty, &schema).is_err());

    let too_many = obj(vec![(
        "tags",
        arr(vec![s("a"), s("b"), s("c"), s("d"), s("e"), s("f")]),
    )]);
    assert!(validate_arguments(&too_many, &schema).is_err());

    let wrong_type = obj(vec![("tags", arr(vec![s("valid"), n(123, 0)]))]);
    assert!(validate_arguments(&wrong_type, &schema).is_err());
}

#[test]
fn test_validate_nested_object() {
    let schema = obj(vec![
        ("type", s("object")),
        (
            "properties",
            obj(vec![(
                "user",
                obj(vec![
                    ("type", s("object")),
                    (
                        "properties",
                        obj(vec![
                            ("name", obj(vec![("type", s("string"))])),
                            ("age", obj(vec![("type", s("integer"))])),
                        ]),
                    ),
                    ("required", arr(vec![s("name")])),
                ]),
            )]),
        ),
    ]);

    let valid = obj(vec![("user", obj(vec![("name", s("Alice")), ("age", n(30, 0))]))]);
    assert!(validate_arguments(&valid, &schema).is_ok());

    let invalid = obj(vec![("user", obj(vec![("age", n(30, 0))]))]);
    assert!(validate_arguments(&invalid, &schema).is_err());
}

#[test]
fn test_validate_type_mismatch() {
    let schema = obj(vec![
        ("type", s("object")),
        (
            "properties",
            obj(vec![
                ("name", obj(vec![("type", s("string"))])),
                ("count", obj(vec![("type", s("number"))])),
            ]),
        ),
    ]);

    let wrong_type = obj(vec![("name", n(123, 0)), ("count", n(5, 0))]);
    assert!(validate_arguments(&wrong_type, &schema).is_err());
}

#[test]
fn numeric_bound_message_is_exact() {
    let schema = obj(vec![
        ("type", s("object")),
        (
            "properties",
            obj(vec![("age", obj(vec![("type", s("number")), ("maximum", n(120, 0))]))]),
        ),
    ]);
    let above = obj(vec![("age", n(150, 0))]);
    let err = validate_arguments(&above, &schema).unwrap_err();
    assert_eq!(err, "Argument 'age' must be <= 120");
}

#[test]
fn numeric_boundaries_are_accepted() {
    let schema = obj(vec![
        ("type", s("object")),
        (
            "properties",
            obj(vec![(
                "age",
                obj(vec![
                    ("type", s("number")),
                    ("minimum", n(0, 0)),
                    ("maximum", n(120, 0)),
                ]),
            )]),
        ),
    ]);
    let low = obj(vec![("age", n(0, 0))]);
    assert!(validate_arguments(&low, &schema).is_ok());
    let high = obj(vec![("age", n(120, 0))]);
    assert!(validate_arguments(&high, &schema).is_ok());
}

#[test]
fn multiple_of_tolerates_decimal_rounding() {
    // 0.3 against multipleOf 0.1 is accepted: the check is exact decimal
    // divisibility, not floating-point remainder.
    let schema = obj(vec![
        ("type", s("object")),
        (
            "properties",
            obj(vec![("x", obj(vec![("type", s("number")), ("multipleOf", n(1, 1))]))]),
        ),
    ]);
    let v = obj(vec![("x", n(3, 1))]);
    assert!(validate_arguments(&v, &schema).is_ok());
    let w = obj(vec![("x", n(35, 2))]);
    assert!(validate_arguments(&w, &schema).is_err());
}

#[test]
fn unique_items_rejects_structural_duplicates() {
    let schema = obj(vec![
        ("type", s("object")),
        (
            "properties",
            obj(vec![("xs", obj(vec![("type", s("array")), ("uniqueItems", Json::Bool(true))]))]),
        ),
    ]);
    let dup = obj(vec![(
        "xs",
        arr(vec![
            obj(vec![("a", n(1, 0))]),
            s("other"),
            obj(vec![("a", n(1, 0))]),
        ]),
    )]);
    let err = validate_arguments(&dup, &schema).unwrap_err();
    assert_eq!(err, "Argument 'xs' must have unique items");

    let ok = obj(vec![("xs", arr(vec![obj(vec![("a", n(1, 0))]), obj(vec![("a", n(2, 0))])]))]);
    assert!(validate_arguments(&ok, &schema).is_ok());
}

#[test]
fn nested_missing_required_reports_dotted_path() {
    let schema = obj(vec![
        ("type", s("object")),
        (
            "properties",
            obj(vec![(
                "user",
                obj(vec![
                    ("type", s("object")),
                    (
                        "properties",
                        obj(vec![(
                            "address",
                            obj(vec![
                                ("type", s("object")),
                                ("required", arr(vec![s("city")])),
                            ]),
                        )]),
                    ),
                ]),
            )]),
        ),
    ]);
    let v = obj(vec![("user", obj(vec![("address", obj(vec![("zip", s("1011"))]))]))]);
    let err = validate_arguments(&v, &schema).unwrap_err();
    assert_eq!(err, "Object 'user.address' is missing required property 'city'");
}

#[test]
fn unknown_type_tag_is_an_error() {
    let schema = obj(vec![
        ("type", s("object")),
        ("properties", obj(vec![("x", obj(vec![("type", s("uuid"))]))])),
    ]);
    let v = obj(vec![("x", s("anything"))]);
    let err = validate_arguments(&v, &schema).unwrap_err();
    assert_eq!(err, "Unknown type 'uuid' in schema for 'x'");
}

#[test]
fn enum_error_lists_allowed_values() {
    let schema = obj(vec![
        ("type", s("object")),
        (
            "properties",
            obj(vec![(
                "unit",
                obj(vec![
                    ("type", s("string")),
                    ("enum", arr(vec![s("celsius"), s("fahrenheit")])),
                ]),
            )]),
        ),
    ]);
    let invalid = obj(vec![("unit", s("kelvin"))]);
    let err = validate_arguments(&invalid, &schema).unwrap_err();
    assert_eq!(
        err,
        "Argument 'unit' must be one of: celsius, fahrenheit. Got: 'kelvin'"
    );
}

#[test]
fn array_items_error_is_indexed() {
    let schema = obj(vec![
        ("type", s("object")),
        (
            "properties",
            obj(vec![(
                "tags",
                obj(vec![("type", s("array")), ("items", obj(vec![("type", s("string"))]))]),
            )]),
        ),
    ]);
    let v = obj(vec![("tags", arr(vec![s("ok"), n(7, 0)]))]);
    let err = validate_arguments(&v, &schema).unwrap_err();
    assert_eq!(err, "Argument 'tags[1]' must be a string");
}

#[test]
fn non_object_arguments_are_rejected() {
    let schema = obj(vec![("type", s("object"))]);
    let err = validate_arguments(&arr(vec![]), &schema).unwrap_err();
    assert_eq!(err, "Arguments must be an object");
}

#[test]
fn exclusive_bounds_have_exact_messages() {
    let schema = obj(vec![
        ("type", s("object")),
        (
            "properties",
            obj(vec![(
                "x",
                obj(vec![
                    ("type", s("number")),
                    ("exclusiveMinimum", n(5, 0)),
                    ("exclusiveMaximum", n(10, 0)),
                ]),
            )]),
        ),
    ]);
    let at_min = obj(vec![("x", n(5, 0))]);
    assert_eq!(
        validate_arguments(&at_min, &schema).unwrap_err(),
        "Argument 'x' must be > 5"
    );
    let at_max = obj(vec![("x", n(10, 0))]);
    assert_eq!(
        validate_arguments(&at_max, &schema).unwrap_err(),
        "Argument 'x' must be < 10"
    );
    let inside = obj(vec![("x", n(7, 0))]);
    assert!(validate_arguments(&inside, &schema).is_ok());
}

#[test]
fn decimal_bounds_render_without_trailing_zeros() {
    let schema = obj(vec![
        ("type", s("object")),
        (
            "properties",
            obj(vec![("x", obj(vec![("type", s("number")), ("maximum", n(5, 1))]))]),
        ),
    ]);
    let v = obj(vec![("x", n(6, 1))]);
    assert_eq!(
        validate_arguments(&v, &schema).unwrap_err(),
        "Argument 'x' must be <= 0.5"
    );
}

#[test]
fn integer_multiple_of_is_exact() {
    let schema = obj(vec![
        ("type", s("object")),
        (
            "properties",
            obj(vec![("x", obj(vec![("type", s("integer")), ("multipleOf", n(3, 0))]))]),
        ),
    ]);
    let ok = obj(vec![("x", n(-9, 0))]);
    assert!(validate_arguments(&ok, &schema).is_ok());
    let bad = obj(vec![("x", n(10, 0))]);
    assert_eq!(
        validate_arguments(&bad, &schema).unwrap_err(),
        "Argument 'x' must be a multiple of 3"
    );
}

#[test]
fn string_length_messages_are_exact() {
    let schema = obj(vec![
        ("type", s("object")),
        (
            "properties",
            obj(vec![(
                "name",
                obj(vec![
                    ("type", s("string")),
                    ("minLength", n(3, 0)),
                    ("maxLength", n(10, 0)),
                ]),
            )]),
        ),
    ]);
    let short = obj(vec![("name", s("Al"))]);
    assert_eq!(
        validate_arguments(&short, &schema).unwrap_err(),
        "Argument 'name' must be at least 3 characters long"
    );
    let long = obj(vec![("name", s("Alexander the Great"))]);
    assert_eq!(
        validate_arguments(&long, &schema).unwrap_err(),
        "Argument 'name' must be at most 10 characters long"
    );
}

#[test]
fn null_type_accepts_only_null() {
    let schema = obj(vec![
        ("type", s("object")),
        ("properties", obj(vec![("x", obj(vec![("type", s("null"))]))])),
    ]);
    let ok = obj(vec![("x", Json::Null)]);
    assert!(validate_arguments(&ok, &schema).is_ok());
    let bad = obj(vec![("x", n(0, 0))]);
    assert_eq!(
        validate_arguments(&bad, &schema).unwrap_err(),
        "Argument 'x' must be null"
    );
}

#[test]
fn arguments_not_named_by_the_schema_are_permitted() {
    let schema = obj(vec![
        ("type", s("object")),
        ("properties", obj(vec![("known", obj(vec![("type", s("string"))]))])),
    ]);
    let v = obj(vec![("known", s("yes")), ("extra", n(1, 0))]);
    assert!(validate_arguments(&v, &schema).is_ok());
}
