use verify::schema::{
    ArrayValidation, InstanceType, Metadata, ObjectValidation, OneOrMany, RootSchema, Schema,
    SchemaObject, StringValidation,
};
use verify::traverse::{KeySpans, Spanned};
use verify::value::Value;

fn s(x: &str) -> String {
    x.to_string()
}

/// The schema a derived integer-field record describes itself with: an
/// object with one required integer property.
fn some_struct_schema(title: &str, field: &str) -> RootSchema {
    RootSchema {
        definitions: vec![],
        schema: SchemaObject {
            metadata: Some(Metadata { title: Some(s(title)), description: None }),
            instance_type: Some(OneOrMany::One(Box::new(InstanceType::Object))),
            object: Some(ObjectValidation {
                max_properties: None,
                min_properties: None,
                required: vec![s(field)],
                properties: vec![(
                    s(field),
                    Schema::Object(SchemaObject {
                        instance_type: Some(OneOrMany::One(Box::new(InstanceType::Integer))),
                        ..SchemaObject::new()
                    }),
                )],
                pattern_properties: vec![],
                additional_properties: None,
                property_names: None,
            }),
            ..SchemaObject::new()
        },
    }
}

#[test]
fn test_derive() {
    let schema = some_struct_schema("SomeStruct", "some_value");
    let some_struct = Value::Object(vec![(Value::Str(s("some_value")), Value::Int(0))]);
    assert!(schema.verify_value(&Spanned::new(&some_struct, KeySpans::default())).is_ok());

    let schema_explicit = some_struct_schema("SomeStructExplicit", "some_value");
    let some_struct_explicit = Value::Object(vec![(Value::Str(s("some_value")), Value::Int(0))]);
    assert!(
        schema_explicit
            .verify_value(&Spanned::new(&some_struct_explicit, KeySpans::default()))
            .is_ok()
    );
}

#[test]
fn schemars_test_verify() {
    let schema = RootSchema {
        definitions: vec![],
        schema: SchemaObject {
            metadata: Some(Metadata { title: Some(s("SomeStruct")), description: None }),
            instance_type: Some(OneOrMany::One(Box::new(InstanceType::Object))),
            object: Some(ObjectValidation {
                max_properties: None,
                min_properties: None,
                required: vec![s("some_inner"), s("some_int")],
                properties: vec![
                    (
                        s("some_str"),
                        Schema::Object(SchemaObject {
                            instance_type: Some(OneOrMany::One(Box::new(InstanceType::Str))),
                            ..SchemaObject::new()
                        }),
                    ),
                    (
                        s("some_inner"),
                        Schema::Object(SchemaObject {
                            instance_type: Some(OneOrMany::One(Box::new(InstanceType::Object))),
                            object: Some(ObjectValidation {
                                max_properties: None,
                                min_properties: None,
                                required: vec![s("inner_values"), s("inner_value")],
                                properties: vec![
                                    (
                                        s("inner_values"),
                                        Schema::Object(SchemaObject {
                                            instance_type: Some(OneOrMany::One(Box::new(
                                                InstanceType::Array,
                                            ))),
                                            array: Some(ArrayValidation {
                                                items: Some(OneOrMany::One(Box::new(
                                                    Schema::Object(SchemaObject {
                                                        instance_type: Some(OneOrMany::One(
                                                            Box::new(InstanceType::Str),
                                                        )),
                                                        ..SchemaObject::new()
                                                    }),
                                                ))),
                                                additional_items: None,
                                                max_items: Some(2),
                                                min_items: None,
                                                unique_items: None,
                                                contains: None,
                                            }),
                                            ..SchemaObject::new()
                                        }),
                                    ),
                                    (
                                        s("inner_value"),
                                        Schema::Object(SchemaObject {
                                            instance_type: Some(OneOrMany::Many(vec![
                                                InstanceType::Number,
                                                InstanceType::Str,
                                            ])),
                                            enum_values: Some(vec![
                                                Value::Int(1),
                                                Value::Str(s("value")),
                                            ]),
                                            ..SchemaObject::new()
                                        }),
                                    ),
                                ],
                                pattern_properties: vec![],
                                additional_properties: None,
                                property_names: None,
                            }),
                            ..SchemaObject::new()
                        }),
                    ),
                    (
                        s("some_int"),
                        Schema::Object(SchemaObject {
                            instance_type: Some(OneOrMany::One(Box::new(InstanceType::Integer))),
                            ..SchemaObject::new()
                        }),
                    ),
                ],
                pattern_properties: vec![],
                additional_properties: Some(Box::new(Schema::Bool(false))),
                property_names: None,
            }),
            ..SchemaObject::new()
        },
    };

    let value = Value::Object(vec![
        (Value::Str(s("some_str")), Value::Bool(false)),
        (
            Value::Str(s("some_inner")),
            Value::Object(vec![
                (Value::Str(s("inner_value")), Value::Int(1)),
                (
                    Value::Str(s("inner_values")),
                    Value::Array(vec![Value::Str(s("value")), Value::Int(2)]),
                ),
            ]),
        ),
        (Value::Str(s("unexpected_property")), Value::Int(2)),
    ]);

    let validation_result = schema.verify_value(&Spanned::new(&value, KeySpans::default()));

    if let Err(errors) = validation_result {
        let mut i = 0;
        while i < errors.len() {
            let error = errors.get(i);
            let span = match &error.span {
                Some(k) => k.dotted(),
                None => String::new(),
            };
            println!("({span}) {err}", span = span, err = error.value.message());
            i += 1;
        }
    }
}

#[test]
fn test_self_verify() {
    let schema = RootSchema {
        definitions: vec![],
        schema: SchemaObject {
            instance_type: Some(OneOrMany::One(Box::new(InstanceType::Object))),
            object: Some(ObjectValidation {
                max_properties: None,
                min_properties: None,
                required: vec![],
                properties: vec![
                    (
                        s("invalid_string"),
                        Schema::Object(SchemaObject {
                            instance_type: Some(OneOrMany::One(Box::new(InstanceType::Str))),
                            string: Some(StringValidation {
                                max_length: None,
                                min_length: None,
                                pattern: Some(s("[[[[\\")),
                            }),
                            ..SchemaObject::new()
                        }),
                    ),
                    (
                        s("missing_local"),
                        Schema::Object(SchemaObject {
                            reference: Some(s("#/definitions/Missing")),
                            ..SchemaObject::new()
                        }),
                    ),
                    (
                        s("external_ref"),
                        Schema::Object(SchemaObject {
                            reference: Some(s(
                                "http://example.com/schema.json#/definitions/Something",
                            )),
                            ..SchemaObject::new()
                        }),
                    ),
                ],
                pattern_properties: vec![],
                additional_properties: None,
                property_names: None,
            }),
            ..SchemaObject::new()
        },
    };

    let validation_result = schema.verify();

    if let Err(errors) = validation_result {
        let mut i = 0;
        while i < errors.len() {
            let error = errors.get(i);
            let span = match &error.span {
                Some(k) => k.dotted(),
                None => String::new(),
            };
            println!("({span}) {err}", span = span, err = error.value.message());
            i += 1;
        }
    }
}
