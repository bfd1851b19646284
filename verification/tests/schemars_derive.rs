use verify::schema::{
    InstanceType, Metadata, ObjectValidation, OneOrMany, RootSchema, Schema, SchemaObject,
};
use verify::traverse::{KeySpans, Spanned};
use verify::value::Value;

fn s(x: &str) -> String {
    x.to_string()
}

fn derived_schema(title: &str) -> RootSchema {
    RootSchema {
        definitions: vec![],
        schema: SchemaObject {
            metadata: Some(Metadata { title: Some(s(title)), description: None }),
            instance_type: Some(OneOrMany::One(Box::new(InstanceType::Object))),
            object: Some(ObjectValidation {
                max_properties: None,
                min_properties: None,
                required: vec![s("some_value")],
                properties: vec![(
                    s("some_value"),
                    Schema::Object(SchemaObject {
                        instance_type: Some(OneOrMany::One(Box::new(InstanceType::Integer))),
                        ..SchemaObject::new()
                    }),
                )],
                pattern_properties: vec![],
                additional_properties: None,
                property_names: None,
            }),
            ..SchemaObject::new()
        },
    }
}

#[test]
fn schemars_derive_test_verify() {
    let schema = derived_schema("SomeStruct");
    let some_struct = Value::Object(vec![(Value::Str(s("some_value")), Value::Int(0))]);
    assert!(schema.verify_value(&Spanned::new(&some_struct, KeySpans::default())).is_ok());

    let schema_explicit = derived_schema("SomeStructExplicit");
    let some_struct_explicit = Value::Object(vec![(Value::Str(s("some_value")), Value::Int(0))]);
    assert!(
        schema_explicit
            .verify_value(&Spanned::new(&some_struct_explicit, KeySpans::default()))
            .is_ok()
    );
}
