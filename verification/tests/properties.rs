use table_schema::{
    decode_any_type, decode_decimal, decode_field, decode_fixed, decode_list, decode_map,
    decode_name_mapping, decode_name_mappings, decode_namespace, decode_primitive, decode_schema,
    decode_struct, encode_any_type, encode_name_mapping, encode_namespace, encode_primitive,
    encode_schema, namespace_text, parse_namespace, AllType, DecodeError, Entity, ErrorKind, List,
    MapType, NameMapping, NameMappings, Namespace, Node, PrimitiveType, SchemaV2, Struct,
    StructField, MAX_DEPTH,
};

fn from_value(value: &serde_json::Value) -> Node {
    match value {
        serde_json::Value::Null => Node::Null,
        serde_json::Value::Bool(b) => Node::Bool(*b),
        serde_json::Value::Number(n) => match n.as_i64() {
            Some(i) => Node::Int(i),
            None => Node::Real(n.to_string()),
        },
        serde_json::Value::String(s) => Node::Text(s.clone()),
        serde_json::Value::Array(items) => Node::Array(items.iter().map(from_value).collect()),
        serde_json::Value::Object(entries) => {
            Node::Object(entries.iter().map(|(k, v)| (k.clone(), from_value(v))).collect())
        }
    }
}

fn parse(text: &str) -> Node {
    from_value(&serde_json::from_str::<serde_json::Value>(text).unwrap())
}

fn text(s: &str) -> Node {
    Node::Text(s.to_string())
}

fn entry(key: &str, node: Node) -> (String, Node) {
    (key.to_string(), node)
}

fn primitive(p: PrimitiveType) -> AllType {
    AllType::Primitive(p)
}

fn field(id: i32, name: &str, field_type: AllType) -> StructField {
    StructField { id, name: name.to_string(), required: id % 2 == 0, field_type, doc: None }
}

fn list_of(element: AllType) -> AllType {
    AllType::List(List { element_id: 7, element_required: true, element: Box::new(element) })
}

fn nested_lists(levels: usize) -> AllType {
    let mut t = primitive(PrimitiveType::Int);
    for _ in 1..levels {
        t = list_of(t);
    }
    t
}

fn error_of<T: std::fmt::Debug>(r: Result<T, DecodeError>) -> (Entity, ErrorKind, String) {
    let e = r.unwrap_err();
    (e.entity, e.kind, e.detail)
}

#[test]
fn round_trip_of_every_primitive() {
    let all = vec![
        PrimitiveType::Boolean,
        PrimitiveType::Int,
        PrimitiveType::Long,
        PrimitiveType::Float,
        PrimitiveType::Double,
        PrimitiveType::Decimal { precision: 0, scale: 0 },
        PrimitiveType::Decimal { precision: 38, scale: 10 },
        PrimitiveType::Decimal { precision: i32::MAX, scale: u8::MAX },
        PrimitiveType::Date,
        PrimitiveType::Time,
        PrimitiveType::Timestamp,
        PrimitiveType::Timestampz,
        PrimitiveType::String,
        PrimitiveType::Uuid,
        PrimitiveType::Fixed(0),
        PrimitiveType::Fixed(16),
        PrimitiveType::Fixed(u64::MAX),
        PrimitiveType::Binary,
    ];
    for p in all {
        let t = primitive(p);
        assert_eq!(decode_any_type(&encode_any_type(&t)), Ok(t));
    }
}

#[test]
fn round_trip_of_nested_types() {
    let inner = AllType::Struct(Struct {
        fields: vec![
            field(1, "a", primitive(PrimitiveType::Decimal { precision: 9, scale: 2 })),
            StructField {
                id: 2,
                name: "b".to_string(),
                required: false,
                field_type: list_of(primitive(PrimitiveType::Fixed(16))),
                doc: Some("a list".to_string()),
            },
        ],
    });
    let map = AllType::MapType(MapType {
        key_id: 3,
        key: Box::new(primitive(PrimitiveType::String)),
        value_id: 4,
        value_required: false,
        value: Box::new(inner),
    });
    let outer = AllType::Struct(Struct {
        fields: vec![field(5, "m", list_of(map)), field(6, "empty", AllType::Struct(Struct { fields: vec![] }))],
    });
    assert_eq!(decode_any_type(&encode_any_type(&outer)), Ok(outer));
}

#[test]
fn round_trip_holds_up_to_the_depth_limit() {
    let deepest = nested_lists(MAX_DEPTH);
    assert_eq!(decode_any_type(&encode_any_type(&deepest)), Ok(deepest));
    let too_deep = nested_lists(MAX_DEPTH + 1);
    let (_, kind, _) = error_of(decode_any_type(&encode_any_type(&too_deep)));
    assert_eq!(kind, ErrorKind::DepthExceeded);
}

#[test]
fn negative_precision_is_written_but_not_read() {
    let p = PrimitiveType::Decimal { precision: -1, scale: 255 };
    assert_eq!(encode_primitive(&p), "decimal(-1,255)");
    assert_eq!(
        error_of(decode_primitive("decimal(-1,255)")),
        (Entity::Decimal, ErrorKind::MalformedPrimitive, "decimal(-1,255)".to_string())
    );
}

#[test]
fn canonical_texts() {
    assert_eq!(encode_primitive(&PrimitiveType::Boolean), "boolean");
    assert_eq!(encode_primitive(&PrimitiveType::Timestampz), "timestampz");
    assert_eq!(encode_primitive(&PrimitiveType::Decimal { precision: 9, scale: 2 }), "decimal(9,2)");
    assert_eq!(encode_primitive(&PrimitiveType::Decimal { precision: 2147483647, scale: 0 }), "decimal(2147483647,0)");
    assert_eq!(encode_primitive(&PrimitiveType::Fixed(16)), "fixed[16]");
    assert_eq!(encode_primitive(&PrimitiveType::Fixed(18446744073709551615)), "fixed[18446744073709551615]");
}

#[test]
fn decimal_grammar() {
    assert_eq!(decode_decimal("decimal(9,2)"), Ok(PrimitiveType::Decimal { precision: 9, scale: 2 }));
    assert_eq!(decode_primitive("decimal(9,2)"), Ok(PrimitiveType::Decimal { precision: 9, scale: 2 }));
    assert_eq!(decode_primitive("decimal(1,1)"), Ok(PrimitiveType::Decimal { precision: 1, scale: 1 }));
    assert_eq!(decode_primitive("decimal(007,010)"), Ok(PrimitiveType::Decimal { precision: 7, scale: 10 }));
    assert_eq!(decode_primitive("decimal(2147483647,255)"), Ok(PrimitiveType::Decimal { precision: 2147483647, scale: 255 }));
    assert_eq!(
        error_of(decode_primitive("decimal(1,1000)")),
        (Entity::Scale, ErrorKind::NumericRange, "1000".to_string())
    );
    assert_eq!(
        error_of(decode_primitive("decimal(1,256)")),
        (Entity::Scale, ErrorKind::NumericRange, "256".to_string())
    );
    assert_eq!(
        error_of(decode_primitive("decimal(2147483648,1)")),
        (Entity::Precision, ErrorKind::NumericRange, "2147483648".to_string())
    );
    for bad in ["decimal", "decimal(9, 2)", "decimal(9,2", "decimal9,2)", "decimal(9;2)", "decimal(,2)", "decimal(9,)", " decimal(9,2)x", "decimal(9,2)\n", "decimal(9.0,2)"] {
        let r = decode_primitive(bad);
        if bad.starts_with("decimal") {
            assert_eq!(error_of(r), (Entity::Decimal, ErrorKind::MalformedPrimitive, bad.to_string()));
        } else {
            assert_eq!(error_of(r), (Entity::PrimitiveType, ErrorKind::MalformedPrimitive, bad.to_string()));
        }
    }
}

#[test]
fn digits_of_other_scripts_match_the_pattern_but_are_no_numbers() {
    assert_eq!(
        error_of(decode_primitive("decimal(\u{0663},2)")),
        (Entity::Precision, ErrorKind::NumericRange, "\u{0663}".to_string())
    );
    assert_eq!(
        error_of(decode_primitive("fixed[\u{0663}]")),
        (Entity::Length, ErrorKind::NumericRange, "\u{0663}".to_string())
    );
}

#[test]
fn fixed_grammar() {
    assert_eq!(decode_fixed("fixed[1]"), Ok(PrimitiveType::Fixed(1)));
    assert_eq!(decode_primitive("fixed[1]"), Ok(PrimitiveType::Fixed(1)));
    assert_eq!(decode_primitive("fixed[18446744073709551615]"), Ok(PrimitiveType::Fixed(u64::MAX)));
    assert_eq!(
        error_of(decode_primitive("fixed[0.1]")),
        (Entity::Fixed, ErrorKind::MalformedPrimitive, "fixed[0.1]".to_string())
    );
    assert_eq!(
        error_of(decode_primitive("fixed[18446744073709551616]")),
        (Entity::Length, ErrorKind::NumericRange, "18446744073709551616".to_string())
    );
    assert_eq!(
        error_of(decode_primitive("fixed[]")),
        (Entity::Fixed, ErrorKind::MalformedPrimitive, "fixed[]".to_string())
    );
}

#[test]
fn names_are_matched_letter_for_letter() {
    assert_eq!(decode_primitive("string"), Ok(PrimitiveType::String));
    assert_eq!(decode_primitive("uuid"), Ok(PrimitiveType::Uuid));
    for bad in ["String", "STRING", "string ", "", "timestamptz", "struct"] {
        assert_eq!(
            error_of(decode_primitive(bad)),
            (Entity::PrimitiveType, ErrorKind::MalformedPrimitive, bad.to_string())
        );
    }
}

#[test]
fn discriminators_are_enforced() {
    assert_eq!(
        error_of(decode_struct(&parse(r#"{"type":"anyother"}"#))),
        (Entity::Struct, ErrorKind::DiscriminatorMismatch, "anyother".to_string())
    );
    assert_eq!(decode_struct(&parse(r#"{"type":"struct","fields":[]}"#)), Ok(Struct { fields: vec![] }));
    assert_eq!(
        error_of(decode_list(&parse(r#"{"type":"map","element-id":3,"element-required":true,"element":"string"}"#))),
        (Entity::List, ErrorKind::DiscriminatorMismatch, "map".to_string())
    );
    assert_eq!(
        error_of(decode_map(&parse(r#"{"type":"list","key-id":4,"key":"string","value-id":5,"value-required":false,"value":"double"}"#))),
        (Entity::MapType, ErrorKind::DiscriminatorMismatch, "list".to_string())
    );
    assert_eq!(
        error_of(decode_any_type(&parse(r#"{"type":"set"}"#))),
        (Entity::AnyType, ErrorKind::DiscriminatorMismatch, "set".to_string())
    );
    assert_eq!(
        error_of(decode_struct(&parse(r#"{"fields":[]}"#))),
        (Entity::Struct, ErrorKind::MissingKey, "type".to_string())
    );
}

#[test]
fn any_type_is_told_by_shape_and_discriminator() {
    assert_eq!(decode_any_type(&text("long")), Ok(primitive(PrimitiveType::Long)));
    assert_eq!(
        decode_any_type(&parse(r#"{"type":"list","element-id":3,"element-required":true,"element":"string"}"#)),
        Ok(AllType::List(List { element_id: 3, element_required: true, element: Box::new(primitive(PrimitiveType::String)) }))
    );
    assert_eq!(
        decode_any_type(&parse(r#"{"type":"struct","fields":[]}"#)),
        Ok(AllType::Struct(Struct { fields: vec![] }))
    );
    for bad in [Node::Null, Node::Bool(true), Node::Int(1), Node::Real("1.5".to_string()), Node::Array(vec![])] {
        assert_eq!(error_of(decode_any_type(&bad)), (Entity::AnyType, ErrorKind::InvalidShape, String::new()));
    }
}

#[test]
fn fields_need_their_keys() {
    let whole = r#"{"id":1,"name":"n","required":true,"field_type":"int","doc":"d","more":[1,2]}"#;
    assert_eq!(
        decode_field(&parse(whole)),
        Ok(StructField { id: 1, name: "n".to_string(), required: true, field_type: primitive(PrimitiveType::Int), doc: Some("d".to_string()) })
    );
    assert_eq!(
        decode_field(&parse(r#"{"id":1,"name":"n","required":true,"field_type":"int","doc":null}"#)).unwrap().doc,
        None
    );
    for key in ["id", "name", "required", "field_type"] {
        let mut value = serde_json::from_str::<serde_json::Value>(whole).unwrap();
        value.as_object_mut().unwrap().remove(key);
        assert_eq!(
            error_of(decode_field(&from_value(&value))),
            (Entity::StructField, ErrorKind::MissingKey, key.to_string())
        );
    }
    assert_eq!(
        error_of(decode_field(&parse(r#"{"id":"1","name":"n","required":true,"field_type":"int"}"#))),
        (Entity::StructField, ErrorKind::InvalidShape, "id".to_string())
    );
    assert_eq!(
        error_of(decode_field(&parse(r#"{"id":1.5,"name":"n","required":true,"field_type":"int"}"#))),
        (Entity::StructField, ErrorKind::InvalidShape, "id".to_string())
    );
    assert_eq!(
        error_of(decode_field(&parse(r#"{"id":2147483648,"name":"n","required":true,"field_type":"int"}"#))),
        (Entity::StructField, ErrorKind::NumericRange, "id".to_string())
    );
    assert_eq!(
        decode_field(&parse(r#"{"id":-2147483648,"name":"n","required":true,"field_type":"int"}"#)).unwrap().id,
        i32::MIN
    );
    assert_eq!(
        error_of(decode_field(&text("int"))),
        (Entity::StructField, ErrorKind::InvalidShape, String::new())
    );
}

#[test]
fn a_key_that_is_read_must_not_occur_twice() {
    let twice = Node::Object(vec![
        entry("id", Node::Int(1)),
        entry("name", text("n")),
        entry("required", Node::Bool(true)),
        entry("field_type", text("int")),
        entry("other", Node::Null),
        entry("other", Node::Null),
        entry("name", text("m")),
    ]);
    assert_eq!(
        error_of(decode_field(&twice)),
        (Entity::StructField, ErrorKind::DuplicateKey, "name".to_string())
    );
}

#[test]
fn the_first_bad_field_fails_the_struct() {
    let data = r#"{"type":"struct","fields":[
        {"id":1,"name":"a","required":true,"field_type":"int"},
        {"id":2,"name":"b","required":true,"field_type":"decimal(1,1000)"},
        {"id":3,"name":"c","required":true,"field_type":"nothing"}]}"#;
    assert_eq!(
        error_of(decode_struct(&parse(data))),
        (Entity::Scale, ErrorKind::NumericRange, "1000".to_string())
    );
    let fields = decode_struct(&parse(r#"{"type":"struct","fields":[
        {"id":1,"name":"a","required":true,"field_type":"int"},
        {"id":2,"name":"b","required":false,"field_type":"long"}]}"#)).unwrap().fields;
    assert_eq!(fields.iter().map(|f| f.name.as_str()).collect::<Vec<_>>(), vec!["a", "b"]);
}

#[test]
fn schema_is_one_flat_object() {
    let data = r#"{"schema-id":1,"type":"struct","identifier-field-ids":[1,2],
        "fields":[{"id":1,"name":"struct_name","required":true,"field_type":"fixed[1]"}],
        "name-mapping":{"default":[{"field-id":4,"names":["latitude","lat"]}]}}"#;
    let schema = decode_schema(&parse(data)).unwrap();
    assert_eq!(schema.schema_id, 1);
    assert_eq!(schema.identifier_field_ids, Some(vec![1, 2]));
    assert_eq!(schema.struct_fields.fields, vec![StructField {
        id: 1, name: "struct_name".to_string(), required: true,
        field_type: primitive(PrimitiveType::Fixed(1)), doc: None }]);
    assert_eq!(schema.name_mapping, Some(NameMappings { default: vec![NameMapping {
        field_id: Some(4), names: vec!["latitude".to_string(), "lat".to_string()], fields: None }] }));
    assert_eq!(decode_schema(&encode_schema(&schema)), Ok(schema));

    let bare = SchemaV2 { schema_id: -3, identifier_field_ids: None, name_mapping: None, struct_fields: Struct { fields: vec![] } };
    let node = encode_schema(&bare);
    match &node {
        Node::Object(entries) => assert_eq!(
            entries.iter().map(|(k, _)| k.as_str()).collect::<Vec<_>>(),
            vec!["type", "schema-id", "identifier-field-ids", "name-mapping", "fields"]
        ),
        _ => panic!("a schema is written as an object"),
    }
    assert_eq!(decode_schema(&node), Ok(bare));

    assert_eq!(
        error_of(decode_schema(&parse(r#"{"type":"struct","fields":[]}"#))),
        (Entity::Schema, ErrorKind::MissingKey, "schema-id".to_string())
    );
    assert_eq!(
        error_of(decode_schema(&parse(r#"{"schema-id":1,"type":"list","fields":[]}"#))),
        (Entity::Struct, ErrorKind::DiscriminatorMismatch, "list".to_string())
    );
    assert_eq!(
        error_of(decode_schema(&parse(r#"{"schema-id":1,"type":"struct","fields":[],"identifier-field-ids":[1,"2"]}"#))),
        (Entity::Schema, ErrorKind::InvalidShape, "identifier-field-ids".to_string())
    );
}

#[test]
fn list_and_map_recursion() {
    let list = decode_list(&parse(r#"{"type":"list","element-id":3,"element-required":true,"element":"string"}"#)).unwrap();
    assert_eq!(*list.element, primitive(PrimitiveType::String));
    let map = decode_map(&parse(r#"{"type":"map","key-id":4,"key":"string","value-id":5,"value-required":false,
        "value":{"type":"list","element-id":6,"element-required":false,"element":"double"}}"#)).unwrap();
    assert_eq!(*map.key, primitive(PrimitiveType::String));
    assert!(!map.value_required);
    assert_eq!(*map.value, AllType::List(List { element_id: 6, element_required: false, element: Box::new(primitive(PrimitiveType::Double)) }));
    assert_eq!(
        error_of(decode_map(&parse(r#"{"type":"map","key-id":4,"key":"string","value-id":5,"value":"double"}"#))),
        (Entity::MapType, ErrorKind::MissingKey, "value-required".to_string())
    );
}

#[test]
fn namespace_levels() {
    let ns = parse_namespace("accounting.tax");
    assert_eq!(ns.levels(), &vec!["accounting".to_string(), "tax".to_string()]);
    assert!(!ns.is_empty());
    assert_eq!(namespace_text(&ns), "accounting.tax");
    assert_eq!(parse_namespace("single").levels(), &vec!["single".to_string()]);
    assert_eq!(parse_namespace(" \t a.b \n").levels(), &vec!["a".to_string(), "b".to_string()]);
    assert_eq!(parse_namespace("\u{3000}a b\u{00a0}").levels(), &vec!["a b".to_string()]);
    assert_eq!(parse_namespace(".a..b.").levels(), &vec!["".to_string(), "a".to_string(), "".to_string(), "b".to_string(), "".to_string()]);
    assert_eq!(parse_namespace("").levels(), &vec!["".to_string()]);
    assert_eq!(parse_namespace("   ").levels(), &vec!["".to_string()]);
    assert!(!parse_namespace("").is_empty());

    let root = Namespace::new(vec![]);
    assert!(root.is_empty());
    assert_eq!(namespace_text(&root), "");
    assert_eq!(encode_namespace(&root), text(""));
    assert!(!Namespace::new(vec!["".to_string()]).is_empty());

    assert_eq!(decode_namespace(&text("accounting.tax")), Ok(ns.clone()));
    assert_eq!(encode_namespace(&ns), text("accounting.tax"));
    assert_eq!(
        error_of(decode_namespace(&Node::Int(3))),
        (Entity::Namespace, ErrorKind::InvalidShape, String::new())
    );
    for t in ["a.b.c", " x ", "..", "a. b"] {
        assert_eq!(namespace_text(&parse_namespace(t)), t.trim());
    }
}

#[test]
fn name_mapping_nesting() {
    let data = r#"{"field-id":3,"names":["location"],"fields":[
        {"field-id":4,"names":["latitude","lat"]},
        {"field-id":5,"names":["longitude","long"],"fields":[]}]}"#;
    let mapping = decode_name_mapping(&parse(data)).unwrap();
    assert_eq!(mapping.field_id, Some(3));
    assert_eq!(mapping.names, vec!["location".to_string()]);
    let children = mapping.fields.as_ref().unwrap();
    assert_eq!(children.iter().map(|c| c.field_id).collect::<Vec<_>>(), vec![Some(4), Some(5)]);
    assert_eq!(children[0].names, vec!["latitude".to_string(), "lat".to_string()]);
    assert_eq!(children[0].fields, None);
    assert_eq!(children[1].fields, Some(vec![]));
    assert_eq!(decode_name_mapping(&encode_name_mapping(&mapping)), Ok(mapping));

    assert_eq!(decode_name_mapping(&parse(r#"{"names":["a"]}"#)).unwrap().field_id, None);
    assert_eq!(
        error_of(decode_name_mapping(&parse(r#"{"field-id":1,"names":[]}"#))),
        (Entity::NameMapping, ErrorKind::InvalidShape, "names".to_string())
    );
    assert_eq!(
        error_of(decode_name_mapping(&parse(r#"{"field-id":1}"#))),
        (Entity::NameMapping, ErrorKind::MissingKey, "names".to_string())
    );
    assert_eq!(
        error_of(decode_name_mapping(&parse(r#"{"field-id":1,"names":["a",2]}"#))),
        (Entity::NameMapping, ErrorKind::InvalidShape, "names".to_string())
    );
    assert_eq!(
        error_of(decode_name_mappings(&parse(r#"{"defaults":[]}"#))),
        (Entity::NameMappings, ErrorKind::MissingKey, "default".to_string())
    );
    assert_eq!(decode_name_mappings(&parse(r#"{"default":[]}"#)), Ok(NameMappings { default: vec![] }));
}

#[test]
fn name_mapping_depth_is_limited() {
    let mut node = parse(r#"{"names":["leaf"]}"#);
    for _ in 1..MAX_DEPTH {
        node = Node::Object(vec![entry("names", Node::Array(vec![text("n")])), entry("fields", Node::Array(vec![node]))]);
    }
    assert!(decode_name_mapping(&node).is_ok());
    let deeper = Node::Object(vec![entry("names", Node::Array(vec![text("n")])), entry("fields", Node::Array(vec![node]))]);
    assert_eq!(
        error_of(decode_name_mapping(&deeper)),
        (Entity::NameMapping, ErrorKind::DepthExceeded, String::new())
    );
}

#[test]
fn messages_name_entity_kind_and_detail() {
    let e = decode_primitive("decimal(1,1000)").unwrap_err();
    assert_eq!(e.message(), "decimal scale: number out of range: 1000");
    let e = decode_struct(&parse(r#"{"type":"anyother"}"#)).unwrap_err();
    assert_eq!(e.message(), "struct: unexpected discriminator: anyother");
    let e = DecodeError::new(Entity::StructField, ErrorKind::MissingKey, "id");
    assert_eq!(e.message(), "struct field: missing key: id");
}

#[test]
fn namespaces_without_dots_come_back() {
    for levels in [vec!["a"], vec!["accounting", "tax"], vec!["x", "", "y z"], vec!["", ""]] {
        let ns = Namespace::new(levels.iter().map(|l| l.to_string()).collect());
        assert_eq!(decode_namespace(&encode_namespace(&ns)), Ok(ns));
    }
    let dotted = Namespace::new(vec!["a.b".to_string()]);
    assert_eq!(
        decode_namespace(&encode_namespace(&dotted)).unwrap().levels(),
        &vec!["a".to_string(), "b".to_string()]
    );
}

#[test]
fn what_was_read_is_read_again_from_what_it_is_written_as() {
    let documents = [
        r#""decimal(0009,002)""#,
        r#""fixed[00016]""#,
        r#"{"type":"list","element-id":1,"element-required":false,"element":"uuid","extra":[1,2]}"#,
        r#"{"fields":[{"doc":null,"field_type":{"type":"map","key-id":1,"key":"string",
            "value-id":2,"value-required":true,"value":"decimal(3,1)"},"required":false,
            "name":"m","id":9}],"type":"struct"}"#,
    ];
    for document in documents {
        let first = decode_any_type(&parse(document)).unwrap();
        assert_eq!(decode_any_type(&encode_any_type(&first)), Ok(first));
    }
    let mapping = decode_name_mapping(&parse(
        r#"{"names":["a"],"fields":[{"names":["b","c"],"field-id":null}],"other":1}"#,
    ))
    .unwrap();
    assert_eq!(mapping.names.len(), 1);
    assert_eq!(mapping.fields.as_ref().unwrap()[0].names.len(), 2);
    assert_eq!(decode_name_mapping(&encode_name_mapping(&mapping)), Ok(mapping));
}
