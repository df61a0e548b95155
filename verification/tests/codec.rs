use table_schema::{
    decode_field, decode_list, decode_map, decode_name_mapping, decode_schema, decode_struct,
    encode_field, AllType, Node, PrimitiveType, StructField,
};

fn from_value(value: &serde_json::Value) -> Node {
    match value {
        serde_json::Value::Null => Node::Null,
        serde_json::Value::Bool(b) => Node::Bool(*b),
        serde_json::Value::Number(n) => match n.as_i64() {
            Some(i) => Node::Int(i),
            None => Node::Real(n.to_string()),
        },
        serde_json::Value::String(s) => Node::Text(s.clone()),
        serde_json::Value::Array(items) => Node::Array(items.iter().map(from_value).collect()),
        serde_json::Value::Object(entries) => {
            Node::Object(entries.iter().map(|(k, v)| (k.clone(), from_value(v))).collect())
        }
    }
}

fn to_value(node: &Node) -> serde_json::Value {
    match node {
        Node::Null => serde_json::Value::Null,
        Node::Bool(b) => serde_json::Value::Bool(*b),
        Node::Int(i) => serde_json::Value::Number(serde_json::Number::from(*i)),
        Node::Real(t) => serde_json::from_str(t).unwrap(),
        Node::Text(t) => serde_json::Value::String(t.clone()),
        Node::Array(items) => serde_json::Value::Array(items.iter().map(to_value).collect()),
        Node::Object(entries) => serde_json::Value::Object(
            entries.iter().map(|(k, v)| (k.clone(), to_value(v))).collect(),
        ),
    }
}

fn parse(text: &str) -> Node {
    from_value(&serde_json::from_str::<serde_json::Value>(text).unwrap())
}

#[test]
fn test_struct_type() {
    let data = r#"
        {
            "type" : "struct",
            "fields": []
        }
        "#;
    assert!(decode_struct(&parse(data)).is_ok());
    let data = r#"
        {
            "type" : "anyother"            
        }
        "#;
    assert!(decode_struct(&parse(data)).is_err());
}

#[test]
fn test_decimal() {
    let data = r#"
        {
            "id" : 1,
            "name": "struct_name",
            "required": true,
            "field_type": "decimal(1,1)"
        }
        "#;
    let result_struct = decode_field(&parse(data)).unwrap();
    assert!(matches!(
        result_struct.field_type,
        AllType::Primitive(PrimitiveType::Decimal {
            precision: 1,
            scale: 1
        })
    ));

    let invalid_decimal_data = r#"
        {
            "id" : 1,
            "name": "struct_name",
            "required": true,
            "field_type": "decimal(1,1000)"
        }
        "#;
    assert!(decode_field(&parse(invalid_decimal_data)).is_err());
}

#[test]
fn test_boolean() {
    let data = r#"
        {
            "id" : 1,
            "name": "struct_name",
            "required": true,
            "field_type": "boolean"
        }
        "#;
    let result_struct = decode_field(&parse(data)).unwrap();
    assert!(matches!(
        result_struct.field_type,
        AllType::Primitive(PrimitiveType::Boolean)
    ));
}

#[test]
fn test_fixed() {
    let data = r#"
        {
            "id" : 1,
            "name": "struct_name",
            "required": true,
            "field_type": "fixed[1]"
        }
        "#;
    let result_struct = decode_field(&parse(data)).unwrap();
    assert!(matches!(
        result_struct.field_type,
        AllType::Primitive(PrimitiveType::Fixed(1),)
    ));

    let invalid_fixed_data = r#"
        {
            "id" : 1,
            "name": "struct_name",
            "required": true,
            "field_type": "fixed[0.1]"
        }
        "#;
    assert!(decode_field(&parse(invalid_fixed_data)).is_err());
}

#[test]
fn test_all_valid_types() {
    let type_mappings = vec![
        PrimitiveType::Boolean,
        PrimitiveType::Int,
        PrimitiveType::Long,
        PrimitiveType::Float,
        PrimitiveType::Double,
        PrimitiveType::Decimal {
            precision: 1,
            scale: 2,
        },
        PrimitiveType::Date,
        PrimitiveType::Time,
        PrimitiveType::Timestamp,
        PrimitiveType::Timestampz,
        PrimitiveType::String,
        PrimitiveType::Uuid,
        PrimitiveType::Fixed(1),
        PrimitiveType::Binary,
    ];

    for primitive in type_mappings {
        let sf = StructField {
            id: 1,
            name: "name".to_string(),
            required: true,
            field_type: AllType::Primitive(primitive.clone()),
            doc: None,
        };

        let j = serde_json::to_string(&to_value(&encode_field(&sf))).unwrap();
        let unserde: StructField = decode_field(&parse(&j)).unwrap();
        assert_eq!(unserde.field_type, AllType::Primitive(primitive));
    }
}

#[test]
fn test_schema() {
    let data = r#"
        {
            "schema-id" : 1,
            "type": "struct",
            "fields" : [
                {   
                    "id" : 1,
                    "name": "struct_name",
                    "required": true,
                    "field_type": "fixed[1]"
                }
            ],
            "name-mapping": {
                "default" : [
                    { 
                        "field-id": 4, 
                        "names": ["latitude", "lat"] 
                    }
                ]
            }
        }
        "#;
    let result_struct = decode_schema(&parse(data)).unwrap();
    assert_eq!(1, result_struct.schema_id);
    assert_eq!(None, result_struct.identifier_field_ids);
    assert_eq!(1, result_struct.struct_fields.fields.len());
    assert_eq!(1, result_struct.name_mapping.unwrap().default.len());
}

#[test]
fn test_list_type() {
    let data = r#"
                {  
                    "type": "list",  
                    "element-id": 3,  
                    "element-required": true,  
                    "element": "string"
                }
        "#;
    let result_struct = decode_list(&parse(data));
    let result_struct = result_struct.unwrap();
    assert_eq!(3, result_struct.element_id);
    assert!(result_struct.element_required);
    assert_eq!(
        AllType::Primitive(PrimitiveType::String),
        *result_struct.element
    );
}

#[test]
fn test_map_type() {
    let data = r#"
        {  
            "type": "map",
            "key-id": 4,
            "key": "string",
            "value-id": 5,
            "value-required": false,
            "value": "double"
        }
        "#;
    let result_struct = decode_map(&parse(data));
    let result_struct = result_struct.unwrap();
    assert_eq!(4, result_struct.key_id);
    assert!(!result_struct.value_required);
    assert_eq!(
        AllType::Primitive(PrimitiveType::Double),
        *result_struct.value
    );
    assert_eq!(
        AllType::Primitive(PrimitiveType::String),
        *result_struct.key
    );
}

#[test]
fn test_name_mapping() {
    let data = r#"
        { "field-id": 3, "names": ["location"], "fields": [
            { "field-id": 4, "names": ["latitude", "lat"] },
            { "field-id": 5, "names": ["longitude", "long"] }
        ] }        
        "#;

    let name_mapping = decode_name_mapping(&parse(data)).unwrap();
    assert_eq!(Some(3), name_mapping.field_id);
    assert!(name_mapping.fields.is_some())
}
