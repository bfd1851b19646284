use verify::errors::{ErrorValue, InvalidSchema};
use verify::schema::{
    InstanceType, ObjectValidation, OneOrMany, RootSchema, Schema, SchemaObject,
};
use verify::traverse::{KeySpans, Spanned};
use verify::value::Value;

fn s(x: &str) -> String {
    x.to_string()
}

fn typed(t: InstanceType) -> SchemaObject {
    SchemaObject { instance_type: Some(OneOrMany::One(Box::new(t))), ..SchemaObject::new() }
}

fn props(list: Vec<(String, Schema)>) -> ObjectValidation {
    ObjectValidation {
        max_properties: None,
        min_properties: None,
        required: vec![],
        properties: list,
        pattern_properties: vec![],
        additional_properties: None,
        property_names: None,
    }
}

/// A deeply nested document with no references and no patterns passes its
/// own check, however far it nests.
#[test]
fn plain_document_passes_self_check() {
    let mut node = SchemaObject { object: Some(props(vec![])), ..typed(InstanceType::Object) };
    let mut depth = 0;
    while depth < 12 {
        node = SchemaObject {
            object: Some(props(vec![(s("inner"), Schema::Object(node))])),
            ..typed(InstanceType::Object)
        };
        depth += 1;
    }
    let doc = RootSchema { definitions: vec![], schema: node };
    assert!(doc.verify().is_ok());
}

/// A local reference to an existing definition validates identically to
/// inlining the definition at the reference site.
#[test]
fn reference_validates_as_inlined_definition() {
    let target = SchemaObject {
        number: Some(verify::schema::NumberValidation {
            multiple_of: None,
            minimum: Some(5),
            exclusive_minimum: None,
            maximum: None,
            exclusive_maximum: None,
        }),
        ..typed(InstanceType::Integer)
    };
    let by_reference = RootSchema {
        definitions: vec![(s("Bound"), Schema::Object(target))],
        schema: SchemaObject {
            reference: Some(s("#/definitions/Bound")),
            ..SchemaObject::new()
        },
    };
    let inlined = RootSchema {
        definitions: vec![],
        schema: SchemaObject {
            number: Some(verify::schema::NumberValidation {
                multiple_of: None,
                minimum: Some(5),
                exclusive_minimum: None,
                maximum: None,
                exclusive_maximum: None,
            }),
            ..typed(InstanceType::Integer)
        },
    };
    for v in [Value::Int(7), Value::Int(2), Value::Str(s("x"))] {
        let a = by_reference.verify_value(&Spanned::new(&v, KeySpans::default()));
        let b = inlined.verify_value(&Spanned::new(&v, KeySpans::default()));
        match (a, b) {
            (Ok(()), Ok(())) => {},
            (Err(ea), Err(eb)) => {
                assert_eq!(ea.len(), eb.len());
                assert_eq!(ea.message(), eb.message());
            },
            _ => panic!("the reference and the inlined definition disagreed"),
        }
    }
}

/// A reference to a missing name yields a missing-definition failure,
/// whatever data is supplied.
#[test]
fn missing_definition_regardless_of_data() {
    let doc = RootSchema {
        definitions: vec![],
        schema: SchemaObject { reference: Some(s("#/definitions/Gone")), ..SchemaObject::new() },
    };
    for v in [Value::Int(1), Value::Null, Value::Array(vec![]), Value::Str(s("q"))] {
        let errors = doc.verify_value(&Spanned::new(&v, KeySpans::default())).unwrap_err();
        assert_eq!(errors.len(), 1);
        match &errors.get(0).value {
            ErrorValue::InvalidSchema(InvalidSchema::MissingDefinition(name)) => {
                assert_eq!(name, "Gone");
            },
            other => panic!("unexpected error: {}", other.message()),
        }
    }
}

/// The self-check walks combinators and reports each defect at its
/// document path.
#[test]
fn self_check_locates_defects() {
    let doc = RootSchema {
        definitions: vec![(
            s("Inner"),
            Schema::Object(SchemaObject {
                reference: Some(s("#/definitions/Absent")),
                ..SchemaObject::new()
            }),
        )],
        schema: SchemaObject {
            subschemas: Some(verify::schema::SubschemaValidation {
                all_of: Some(vec![Schema::Object(SchemaObject {
                    reference: Some(s("#/definitions/Inner")),
                    ..SchemaObject::new()
                })]),
                any_of: None,
                one_of: None,
                not: None,
                if_schema: None,
                then_schema: None,
                else_schema: None,
            }),
            ..SchemaObject::new()
        },
    };
    let errors = doc.verify().unwrap_err();
    assert_eq!(errors.len(), 1);
    assert!(matches!(
        errors.get(0).value,
        ErrorValue::InvalidSchema(InvalidSchema::MissingDefinition(_))
    ));
    assert_eq!(errors.get(0).span.as_ref().unwrap().dotted(), "definitions.Inner");
}

/// An external reference is reported by the self-check, at the root.
#[test]
fn self_check_rejects_external_reference() {
    let doc = RootSchema {
        definitions: vec![],
        schema: SchemaObject {
            reference: Some(s("https://example.com/other.json")),
            ..SchemaObject::new()
        },
    };
    let errors = doc.verify().unwrap_err();
    assert_eq!(errors.len(), 1);
    assert!(matches!(
        errors.get(0).value,
        ErrorValue::InvalidSchema(InvalidSchema::ExternalReference(_))
    ));
    assert_eq!(errors.get(0).span.as_ref().unwrap().dotted(), "");
}

/// Reference chains resolve hop by hop.
#[test]
fn reference_chain_resolves() {
    let doc = RootSchema {
        definitions: vec![
            (
                s("A"),
                Schema::Object(SchemaObject {
                    reference: Some(s("#/definitions/B")),
                    ..SchemaObject::new()
                }),
            ),
            (s("B"), Schema::Object(typed(InstanceType::Integer))),
        ],
        schema: SchemaObject { reference: Some(s("#/definitions/A")), ..SchemaObject::new() },
    };
    assert!(doc.verify().is_ok());
    let v = Value::Int(3);
    assert!(doc.verify_value(&Spanned::new(&v, KeySpans::default())).is_ok());
    let w = Value::Str(s("no"));
    assert!(doc.verify_value(&Spanned::new(&w, KeySpans::default())).is_err());
}

/// A reference cycle cannot run forever: the engine gives up with a
/// failure instead.
#[test]
fn reference_cycle_reports_failure() {
    let doc = RootSchema {
        definitions: vec![(
            s("Loop"),
            Schema::Object(SchemaObject {
                reference: Some(s("#/definitions/Loop")),
                ..SchemaObject::new()
            }),
        )],
        schema: SchemaObject { reference: Some(s("#/definitions/Loop")), ..SchemaObject::new() },
    };
    let v = Value::Int(1);
    let errors = doc.verify_value(&Spanned::new(&v, KeySpans::default())).unwrap_err();
    assert_eq!(errors.len(), 1);
    assert!(matches!(errors.get(0).value, ErrorValue::Custom(_)));
}
