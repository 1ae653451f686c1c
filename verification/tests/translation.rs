use graphql_jddf::input::{
    DocumentData, FieldDescriptor, IntrospectionDocument, SchemaData, SchemaError, TypeDescriptor,
    TypeKind, TypeRefNode,
};
use graphql_jddf::ir::GraphQLType;
use graphql_jddf::translate::{translate, translate_document, Fragment, PrimType};

fn named(name: &str) -> TypeRefNode {
    TypeRefNode { kind: TypeKind::Scalar, name: Some(name.to_string()), of_type: None }
}

fn wrap(kind: TypeKind, inner: TypeRefNode) -> TypeRefNode {
    TypeRefNode { kind, name: None, of_type: Some(Box::new(inner)) }
}

fn desc(kind: TypeKind, name: &str) -> TypeDescriptor {
    TypeDescriptor {
        kind,
        name: Some(name.to_string()),
        fields: None,
        possible_types: None,
        enum_values: None,
        input_fields: None,
    }
}

fn document(root: &str, types: Vec<TypeDescriptor>) -> IntrospectionDocument {
    IntrospectionDocument {
        data: Some(DocumentData {
            schema: Some(SchemaData { query_type_name: Some(root.to_string()), types }),
        }),
    }
}

#[test]
fn scalar_table() {
    let cases = vec![
        ("Int", Fragment::Prim(PrimType::Int32)),
        ("Float", Fragment::Prim(PrimType::Float64)),
        ("Boolean", Fragment::Prim(PrimType::Boolean)),
        ("String", Fragment::Prim(PrimType::Str)),
        ("ID", Fragment::Prim(PrimType::Str)),
        ("DateTime", Fragment::Empty),
        ("Custom", Fragment::Empty),
    ];
    for (name, expected) in cases {
        let t = GraphQLType::Scalar(name.to_string());
        assert_eq!(translate(&t), Ok(expected));
    }
}

#[test]
fn enum_color_values() {
    let mut d = desc(TypeKind::Enum, "Color");
    d.enum_values = Some(vec!["RED".to_string(), "GREEN".to_string(), "BLUE".to_string()]);
    let node = graphql_jddf::builder::build_type(&d).unwrap();
    let frag = translate(&node).unwrap();
    match frag {
        Fragment::Enum(vs) => {
            assert_eq!(vs.len(), 3);
            assert!(vs.contains(&"RED".to_string()));
            assert!(vs.contains(&"GREEN".to_string()));
            assert!(vs.contains(&"BLUE".to_string()));
        }
        other => panic!("expected an enum fragment, got {:?}", other),
    }
}

#[test]
fn enum_duplicate_values_deduplicated() {
    let mut d = desc(TypeKind::Enum, "Dup");
    d.enum_values = Some(vec!["A".to_string(), "B".to_string(), "A".to_string()]);
    let node = graphql_jddf::builder::build_type(&d).unwrap();
    let frag = translate(&node).unwrap();
    assert_eq!(frag, Fragment::Enum(vec!["A".to_string(), "B".to_string()]));
}

#[test]
fn missing_schema_is_malformed_envelope() {
    let doc = IntrospectionDocument { data: Some(DocumentData { schema: None }) };
    assert_eq!(translate_document(&doc), Err(SchemaError::MalformedEnvelope));
}

#[test]
fn missing_data_is_malformed_envelope() {
    let doc = IntrospectionDocument { data: None };
    assert_eq!(translate_document(&doc), Err(SchemaError::MalformedEnvelope));
}

#[test]
fn missing_root_name_is_malformed_envelope() {
    let doc = IntrospectionDocument {
        data: Some(DocumentData {
            schema: Some(SchemaData { query_type_name: None, types: vec![] }),
        }),
    };
    assert_eq!(translate_document(&doc), Err(SchemaError::MalformedEnvelope));
}

#[test]
fn interface_translates_to_empty() {
    let mut d = desc(TypeKind::Interface, "Node");
    d.possible_types = Some(vec![named("User"), named("Post")]);
    let node = graphql_jddf::builder::build_type(&d).unwrap();
    assert_eq!(translate(&node).unwrap(), Fragment::Empty);

    let mut e = desc(TypeKind::Interface, "Bare");
    e.possible_types = Some(vec![]);
    let node = graphql_jddf::builder::build_type(&e).unwrap();
    assert_eq!(translate(&node).unwrap(), Fragment::Empty);
}

#[test]
fn union_translates_to_empty() {
    let mut d = desc(TypeKind::Union, "Either");
    d.possible_types = Some(vec![named("Left"), named("Right")]);
    let node = graphql_jddf::builder::build_type(&d).unwrap();
    assert_eq!(translate(&node).unwrap(), Fragment::Empty);
}

#[test]
fn round_trip_query_document() {
    let mut query = desc(TypeKind::Object, "Query");
    query.fields = Some(vec![
        FieldDescriptor {
            name: "id".to_string(),
            type_ref: wrap(TypeKind::NonNull, named("String")),
        },
        FieldDescriptor {
            name: "tags".to_string(),
            type_ref: wrap(TypeKind::List, named("Int")),
        },
    ]);
    let doc = document(
        "Query",
        vec![query, desc(TypeKind::Scalar, "String"), desc(TypeKind::Scalar, "Int")],
    );
    let out = translate_document(&doc).unwrap();
    assert_eq!(out.root, "Query".to_string());
    assert_eq!(out.definitions.len(), 3);
    assert_eq!(
        out.definitions[0],
        (
            "Query".to_string(),
            Fragment::Properties {
                required: vec![("id".to_string(), Fragment::Ref("String".to_string()))],
                optional: vec![(
                    "tags".to_string(),
                    Fragment::Elements(Box::new(Fragment::Empty))
                )],
            }
        )
    );
    assert_eq!(
        out.definitions[1],
        ("String".to_string(), Fragment::Prim(PrimType::Str))
    );
    assert_eq!(
        out.definitions[2],
        ("Int".to_string(), Fragment::Prim(PrimType::Int32))
    );
}

#[test]
fn required_optional_partition() {
    let mut obj = desc(TypeKind::Object, "Widget");
    obj.fields = Some(vec![
        FieldDescriptor {
            name: "a".to_string(),
            type_ref: wrap(TypeKind::NonNull, named("Int")),
        },
        FieldDescriptor { name: "b".to_string(), type_ref: named("Int") },
        FieldDescriptor {
            name: "c".to_string(),
            type_ref: wrap(TypeKind::NonNull, named("String")),
        },
    ]);
    let node = graphql_jddf::builder::build_type(&obj).unwrap();
    match translate(&node).unwrap() {
        Fragment::Properties { required, optional } => {
            let req_keys: Vec<&String> = required.iter().map(|p| &p.0).collect();
            let opt_keys: Vec<&String> = optional.iter().map(|p| &p.0).collect();
            assert_eq!(req_keys, vec!["a", "c"]);
            assert_eq!(opt_keys, vec!["b"]);
        }
        other => panic!("expected a properties fragment, got {:?}", other),
    }
}

#[test]
fn input_object_translates_like_object() {
    let mut inp = desc(TypeKind::InputObject, "Filter");
    inp.input_fields = Some(vec![
        FieldDescriptor {
            name: "limit".to_string(),
            type_ref: wrap(TypeKind::NonNull, named("Int")),
        },
        FieldDescriptor { name: "after".to_string(), type_ref: named("String") },
    ]);
    let node = graphql_jddf::builder::build_type(&inp).unwrap();
    assert_eq!(
        translate(&node).unwrap(),
        Fragment::Properties {
            required: vec![("limit".to_string(), Fragment::Ref("Int".to_string()))],
            optional: vec![("after".to_string(), Fragment::Ref("String".to_string()))],
        }
    );
}

#[test]
fn list_of_non_null_items() {
    let mut obj = desc(TypeKind::Object, "Holder");
    obj.fields = Some(vec![FieldDescriptor {
        name: "xs".to_string(),
        type_ref: wrap(TypeKind::List, wrap(TypeKind::NonNull, named("Int"))),
    }]);
    let node = graphql_jddf::builder::build_type(&obj).unwrap();
    assert_eq!(
        translate(&node).unwrap(),
        Fragment::Properties {
            required: vec![],
            optional: vec![(
                "xs".to_string(),
                Fragment::Elements(Box::new(Fragment::Ref("Int".to_string())))
            )],
        }
    );
}

#[test]
fn chain_depth_eight_resolves() {
    let mut chain = named("Leaf");
    for _ in 0..8 {
        chain = wrap(TypeKind::NonNull, chain);
    }
    let resolved = graphql_jddf::builder::resolve_type_ref(&chain).unwrap();
    let mut expected = GraphQLType::Ref("Leaf".to_string());
    for _ in 0..8 {
        expected = GraphQLType::NonNull(Box::new(expected));
    }
    assert_eq!(resolved, expected);
}

#[test]
fn chain_depth_nine_is_too_deep() {
    let mut chain = named("Leaf");
    for _ in 0..9 {
        chain = wrap(TypeKind::List, chain);
    }
    assert_eq!(
        graphql_jddf::builder::resolve_type_ref(&chain),
        Err(SchemaError::NestingTooDeep)
    );
}

#[test]
fn malformed_link_is_unhandled_shape() {
    let link = TypeRefNode { kind: TypeKind::Scalar, name: None, of_type: None };
    assert_eq!(
        graphql_jddf::builder::resolve_type_ref(&link),
        Err(SchemaError::UnhandledShape)
    );
    let wrapper_without_target =
        TypeRefNode { kind: TypeKind::NonNull, name: None, of_type: None };
    assert_eq!(
        graphql_jddf::builder::resolve_type_ref(&wrapper_without_target),
        Err(SchemaError::UnhandledShape)
    );
}

#[test]
fn object_without_fields_is_unhandled_shape() {
    let d = desc(TypeKind::Object, "Broken");
    assert_eq!(graphql_jddf::builder::build_type(&d), Err(SchemaError::UnhandledShape));
}

#[test]
fn wrapper_kind_descriptor_is_unhandled_shape() {
    assert_eq!(
        graphql_jddf::builder::build_type(&desc(TypeKind::NonNull, "Bad")),
        Err(SchemaError::UnhandledShape)
    );
    assert_eq!(
        graphql_jddf::builder::build_type(&desc(TypeKind::Other, "Odd")),
        Err(SchemaError::UnhandledShape)
    );
}

#[test]
fn interface_member_must_be_bare_reference() {
    let mut d = desc(TypeKind::Interface, "Node");
    d.possible_types = Some(vec![wrap(TypeKind::NonNull, named("User"))]);
    assert_eq!(graphql_jddf::builder::build_type(&d), Err(SchemaError::UnhandledShape));
}

#[test]
fn nesting_error_aborts_whole_document() {
    let mut chain = named("Leaf");
    for _ in 0..9 {
        chain = wrap(TypeKind::NonNull, chain);
    }
    let mut obj = desc(TypeKind::Object, "Deep");
    obj.fields = Some(vec![FieldDescriptor { name: "f".to_string(), type_ref: chain }]);
    let doc = document("Deep", vec![obj]);
    assert_eq!(translate_document(&doc), Err(SchemaError::NestingTooDeep));
}

#[test]
fn doubly_wrapped_field_is_unhandled_shape() {
    let mut obj = desc(TypeKind::Object, "Odd");
    obj.fields = Some(vec![FieldDescriptor {
        name: "f".to_string(),
        type_ref: wrap(TypeKind::NonNull, wrap(TypeKind::NonNull, named("Int"))),
    }]);
    let doc = document("Odd", vec![obj]);
    assert_eq!(translate_document(&doc), Err(SchemaError::UnhandledShape));
}

#[test]
fn duplicate_type_names_last_write_wins() {
    let mut first = desc(TypeKind::Enum, "Dup");
    first.enum_values = Some(vec!["OLD".to_string()]);
    let mut second = desc(TypeKind::Enum, "Dup");
    second.enum_values = Some(vec!["NEW".to_string()]);
    let doc = document("Dup", vec![first, second]);
    let out = translate_document(&doc).unwrap();
    assert_eq!(out.definitions.len(), 1);
    assert_eq!(
        out.definitions[0],
        ("Dup".to_string(), Fragment::Enum(vec!["NEW".to_string()]))
    );
}

#[test]
fn duplicate_field_names_last_write_wins() {
    let mut obj = desc(TypeKind::Object, "Rec");
    obj.fields = Some(vec![
        FieldDescriptor {
            name: "a".to_string(),
            type_ref: wrap(TypeKind::NonNull, named("String")),
        },
        FieldDescriptor { name: "a".to_string(), type_ref: named("Int") },
    ]);
    let node = graphql_jddf::builder::build_type(&obj).unwrap();
    assert_eq!(
        translate(&node).unwrap(),
        Fragment::Properties {
            required: vec![],
            optional: vec![("a".to_string(), Fragment::Ref("Int".to_string()))],
        }
    );
}

#[test]
fn translation_is_deterministic() {
    let mut obj = desc(TypeKind::Object, "Query");
    obj.fields = Some(vec![
        FieldDescriptor {
            name: "id".to_string(),
            type_ref: wrap(TypeKind::NonNull, named("ID")),
        },
        FieldDescriptor { name: "name".to_string(), type_ref: named("String") },
    ]);
    let node = graphql_jddf::builder::build_type(&obj).unwrap();
    let once = translate(&node).unwrap();
    let twice = translate(&node).unwrap();
    assert_eq!(once, twice);
}

#[test]
fn empty_type_list_yields_empty_definitions() {
    let doc = document("Query", vec![]);
    let out = translate_document(&doc).unwrap();
    assert_eq!(out.definitions.len(), 0);
    assert_eq!(out.root, "Query".to_string());
}

#[test]
fn self_referential_object_translates() {
    let mut obj = desc(TypeKind::Object, "Node");
    obj.fields = Some(vec![FieldDescriptor {
        name: "next".to_string(),
        type_ref: named("Node"),
    }]);
    let doc = document("Node", vec![obj]);
    let out = translate_document(&doc).unwrap();
    assert_eq!(
        out.definitions[0],
        (
            "Node".to_string(),
            Fragment::Properties {
                required: vec![],
                optional: vec![("next".to_string(), Fragment::Ref("Node".to_string()))],
            }
        )
    );
}
