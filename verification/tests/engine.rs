use verify::errors::{ErrorValue, Errors, InvalidSchema, UnsupportedValue};
use verify::schema::{
    ArrayValidation, InstanceType, Metadata, NumberValidation, ObjectValidation, OneOrMany,
    RootSchema, Schema, SchemaObject, StringValidation,
};
use verify::traverse::{KeySpans, Spanned};
use verify::value::Value;

fn s(x: &str) -> String {
    x.to_string()
}

fn typed(t: InstanceType) -> SchemaObject {
    SchemaObject { instance_type: Some(OneOrMany::One(Box::new(t))), ..SchemaObject::new() }
}

fn root(schema: SchemaObject) -> RootSchema {
    RootSchema { definitions: vec![], schema }
}

fn check(schema: &RootSchema, value: &Value) -> Result<(), Errors> {
    schema.verify_value(&Spanned::new(value, KeySpans::default()))
}

fn errors_of(schema: &RootSchema, value: &Value) -> Errors {
    match check(schema, value) {
        Ok(()) => Errors::new(),
        Err(e) => e,
    }
}

#[test]
fn sound_when_all_constraints_hold() {
    let schema = root(SchemaObject {
        number: Some(NumberValidation {
            multiple_of: Some(3),
            minimum: Some(0),
            exclusive_minimum: None,
            maximum: Some(100),
            exclusive_maximum: None,
        }),
        ..typed(InstanceType::Integer)
    });
    assert!(check(&schema, &Value::Int(9)).is_ok());
    assert!(check(&schema, &Value::Int(0)).is_ok());
}

#[test]
fn one_error_for_wrong_type() {
    let schema = root(typed(InstanceType::Str));
    let errors = errors_of(&schema, &Value::Int(1));
    assert_eq!(errors.len(), 1);
    assert!(matches!(errors.get(0).value, ErrorValue::InvalidType { .. }));
}

#[test]
fn one_error_for_number_below_minimum() {
    let schema = root(SchemaObject {
        number: Some(NumberValidation {
            multiple_of: None,
            minimum: Some(10),
            exclusive_minimum: None,
            maximum: None,
            exclusive_maximum: None,
        }),
        ..typed(InstanceType::Integer)
    });
    let errors = errors_of(&schema, &Value::Int(3));
    assert_eq!(errors.len(), 1);
    match &errors.get(0).value {
        ErrorValue::LessThanExpected { min, exclusive } => {
            assert_eq!(*min, 10);
            assert!(!*exclusive);
        },
        other => panic!("unexpected error: {}", other.message()),
    }
}

#[test]
fn one_error_for_string_too_long() {
    let schema = root(SchemaObject {
        string: Some(StringValidation { max_length: Some(3), min_length: None, pattern: None }),
        ..typed(InstanceType::Str)
    });
    let errors = errors_of(&schema, &Value::Str(s("abcdef")));
    assert_eq!(errors.len(), 1);
    assert!(matches!(errors.get(0).value, ErrorValue::TooLong { max_length: 3 }));
}

#[test]
fn one_error_for_enum_miss() {
    let schema = root(SchemaObject {
        enum_values: Some(vec![Value::Int(1), Value::Str(s("value"))]),
        ..typed(InstanceType::Integer)
    });
    let errors = errors_of(&schema, &Value::Int(7));
    assert_eq!(errors.len(), 1);
    assert!(matches!(errors.get(0).value, ErrorValue::InvalidEnumValue { .. }));
    assert!(check(&schema, &Value::Int(1)).is_ok());
}

#[test]
fn one_error_for_multiple_of() {
    let schema = root(SchemaObject {
        number: Some(NumberValidation {
            multiple_of: Some(4),
            minimum: None,
            exclusive_minimum: None,
            maximum: None,
            exclusive_maximum: None,
        }),
        ..typed(InstanceType::Integer)
    });
    let errors = errors_of(&schema, &Value::Int(10));
    assert_eq!(errors.len(), 1);
    assert!(matches!(errors.get(0).value, ErrorValue::NotMultipleOf { multiple_of: 4 }));
    assert!(check(&schema, &Value::Int(-8)).is_ok());
}

#[test]
fn two_errors_accumulate_for_independent_violations() {
    // The value has the wrong type and also fails an unrelated `allOf`
    // branch: both failures are reported, neither suppresses the other.
    let schema = root(SchemaObject {
        subschemas: Some(verify::schema::SubschemaValidation {
            all_of: Some(vec![Schema::Object(SchemaObject {
                number: Some(NumberValidation {
                    multiple_of: None,
                    minimum: Some(10),
                    exclusive_minimum: None,
                    maximum: None,
                    exclusive_maximum: None,
                }),
                ..typed(InstanceType::Integer)
            })]),
            any_of: None,
            one_of: None,
            not: None,
            if_schema: None,
            then_schema: None,
            else_schema: None,
        }),
        string: None,
        ..typed(InstanceType::Str)
    });
    let errors = errors_of(&schema, &Value::Int(1));
    assert_eq!(errors.len(), 2);
    assert!(matches!(errors.get(0).value, ErrorValue::LessThanExpected { .. }));
    assert!(matches!(errors.get(1).value, ErrorValue::InvalidType { .. }));
}

fn branch(title: &str, min: i64) -> Schema {
    Schema::Object(SchemaObject {
        metadata: Some(Metadata { title: Some(s(title)), description: None }),
        number: Some(NumberValidation {
            multiple_of: None,
            minimum: Some(min),
            exclusive_minimum: None,
            maximum: None,
            exclusive_maximum: None,
        }),
        ..typed(InstanceType::Integer)
    })
}

fn one_of_schema() -> RootSchema {
    // Branch one accepts values of at least 0, branch two of at least 10,
    // branch three of at least -5.
    root(SchemaObject {
        subschemas: Some(verify::schema::SubschemaValidation {
            all_of: None,
            any_of: None,
            one_of: Some(vec![branch("first", 0), branch("second", 10), branch("third", -5)]),
            not: None,
            if_schema: None,
            then_schema: None,
            else_schema: None,
        }),
        ..SchemaObject::new()
    })
}

#[test]
fn one_of_two_matches_names_both_titles() {
    // The value 3 matches the first and third branches only.
    let errors = errors_of(&one_of_schema(), &Value::Int(3));
    assert_eq!(errors.len(), 1);
    match &errors.get(0).value {
        ErrorValue::MoreThanOneValid { matched } => {
            assert_eq!(matched.len(), 2);
            assert_eq!(matched[0].as_ref().unwrap().title.as_ref().unwrap(), "first");
            assert_eq!(matched[1].as_ref().unwrap().title.as_ref().unwrap(), "third");
        },
        other => panic!("unexpected error: {}", other.message()),
    }
}

#[test]
fn one_of_no_match_carries_failure_sets() {
    // The value -100 matches no branch; every branch's failures come back.
    let errors = errors_of(&one_of_schema(), &Value::Int(-100));
    assert_eq!(errors.len(), 1);
    match &errors.get(0).value {
        ErrorValue::NoneValid { errors: nested } => {
            assert_eq!(nested.len(), 3);
        },
        other => panic!("unexpected error: {}", other.message()),
    }
}

#[test]
fn any_of_no_match_carries_two_failure_sets() {
    let schema = root(SchemaObject {
        subschemas: Some(verify::schema::SubschemaValidation {
            all_of: None,
            any_of: Some(vec![branch("low", 0), branch("high", 10)]),
            one_of: None,
            not: None,
            if_schema: None,
            then_schema: None,
            else_schema: None,
        }),
        ..SchemaObject::new()
    });
    let errors = errors_of(&schema, &Value::Int(-1));
    assert_eq!(errors.len(), 1);
    match &errors.get(0).value {
        ErrorValue::NoneValid { errors: nested } => assert_eq!(nested.len(), 2),
        other => panic!("unexpected error: {}", other.message()),
    }
    assert!(check(&schema, &Value::Int(5)).is_ok());
}

#[test]
fn required_property_reported_once() {
    let schema = root(SchemaObject {
        object: Some(ObjectValidation {
            max_properties: None,
            min_properties: None,
            required: vec![s("a"), s("b")],
            properties: vec![],
            pattern_properties: vec![],
            additional_properties: None,
            property_names: None,
        }),
        ..typed(InstanceType::Object)
    });
    let value = Value::Object(vec![(Value::Str(s("a")), Value::Int(1))]);
    let errors = errors_of(&schema, &value);
    assert_eq!(errors.len(), 1);
    match &errors.get(0).value {
        ErrorValue::RequiredProperty { name } => assert_eq!(name, "b"),
        other => panic!("unexpected error: {}", other.message()),
    }
}

#[test]
fn duplicate_items_report_both_positions() {
    let schema = root(SchemaObject {
        array: Some(ArrayValidation {
            items: None,
            additional_items: None,
            max_items: None,
            min_items: None,
            unique_items: Some(true),
            contains: None,
        }),
        ..typed(InstanceType::Array)
    });
    let value = Value::Array(vec![Value::Int(1), Value::Int(2), Value::Int(1)]);
    let errors = errors_of(&schema, &value);
    assert_eq!(errors.len(), 1);
    match &errors.get(0).value {
        ErrorValue::NotUnique { first, duplicate } => {
            assert_eq!(first.as_ref().unwrap().dotted(), "0");
            assert_eq!(duplicate.as_ref().unwrap().dotted(), "2");
        },
        other => panic!("unexpected error: {}", other.message()),
    }
}

#[test]
fn nested_failure_renders_dotted_span() {
    // A value nested at some_inner.inner_value fails its constraint; the
    // failure's location renders as the dotted path to it.
    let schema = root(SchemaObject {
        object: Some(ObjectValidation {
            max_properties: None,
            min_properties: None,
            required: vec![],
            properties: vec![(
                s("some_inner"),
                Schema::Object(SchemaObject {
                    object: Some(ObjectValidation {
                        max_properties: None,
                        min_properties: None,
                        required: vec![],
                        properties: vec![(
                            s("inner_value"),
                            Schema::Object(SchemaObject {
                                number: Some(NumberValidation {
                                    multiple_of: None,
                                    minimum: Some(10),
                                    exclusive_minimum: None,
                                    maximum: None,
                                    exclusive_maximum: None,
                                }),
                                ..typed(InstanceType::Integer)
                            }),
                        )],
                        pattern_properties: vec![],
                        additional_properties: None,
                        property_names: None,
                    }),
                    ..typed(InstanceType::Object)
                }),
            )],
            pattern_properties: vec![],
            additional_properties: None,
            property_names: None,
        }),
        ..typed(InstanceType::Object)
    });
    let value = Value::Object(vec![(
        Value::Str(s("some_inner")),
        Value::Object(vec![(Value::Str(s("inner_value")), Value::Int(2))]),
    )]);
    let errors = errors_of(&schema, &value);
    assert_eq!(errors.len(), 1);
    assert_eq!(errors.get(0).span.as_ref().unwrap().dotted(), "some_inner.inner_value");
}

#[test]
fn pattern_match_and_failure() {
    let schema = root(SchemaObject {
        string: Some(StringValidation {
            max_length: None,
            min_length: None,
            pattern: Some(s("^a+$")),
        }),
        ..typed(InstanceType::Str)
    });
    assert!(check(&schema, &Value::Str(s("aaa"))).is_ok());
    let errors = errors_of(&schema, &Value::Str(s("bbb")));
    assert_eq!(errors.len(), 1);
    assert!(matches!(errors.get(0).value, ErrorValue::NoPatternMatch { .. }));
}

#[test]
fn malformed_pattern_is_a_schema_failure() {
    let schema = root(SchemaObject {
        string: Some(StringValidation {
            max_length: None,
            min_length: None,
            pattern: Some(s("[[[[\\")),
        }),
        ..typed(InstanceType::Str)
    });
    let errors = errors_of(&schema, &Value::Str(s("anything")));
    assert_eq!(errors.len(), 1);
    assert!(matches!(
        errors.get(0).value,
        ErrorValue::InvalidSchema(InvalidSchema::InvalidPattern { .. })
    ));
}

#[test]
fn contains_and_cardinality() {
    let schema = root(SchemaObject {
        array: Some(ArrayValidation {
            items: None,
            additional_items: None,
            max_items: Some(3),
            min_items: Some(2),
            unique_items: None,
            contains: Some(Box::new(Schema::Object(SchemaObject {
                enum_values: Some(vec![Value::Int(7)]),
                ..typed(InstanceType::Integer)
            }))),
        }),
        ..typed(InstanceType::Array)
    });
    assert!(check(&schema, &Value::Array(vec![Value::Int(1), Value::Int(7)])).is_ok());
    let errors = errors_of(&schema, &Value::Array(vec![Value::Int(1)]));
    assert_eq!(errors.len(), 2);
    assert!(matches!(errors.get(0).value, ErrorValue::MustContain { .. }));
    assert!(matches!(errors.get(1).value, ErrorValue::NotEnoughItems { min: 2 }));
    let too_many = errors_of(
        &schema,
        &Value::Array(vec![Value::Int(7), Value::Int(1), Value::Int(2), Value::Int(3)]),
    );
    assert_eq!(too_many.len(), 1);
    assert!(matches!(too_many.get(0).value, ErrorValue::TooManyItems { max: 3 }));
}

#[test]
fn boolean_schemas_accept_and_reject() {
    let accept = RootSchema {
        definitions: vec![],
        schema: SchemaObject {
            object: Some(ObjectValidation {
                max_properties: None,
                min_properties: None,
                required: vec![],
                properties: vec![(s("x"), Schema::Bool(true))],
                pattern_properties: vec![],
                additional_properties: Some(Box::new(Schema::Bool(false))),
                property_names: None,
            }),
            ..typed(InstanceType::Object)
        },
    };
    let fine = Value::Object(vec![(Value::Str(s("x")), Value::Int(1))]);
    assert!(check(&accept, &fine).is_ok());
    let extra = Value::Object(vec![(Value::Str(s("y")), Value::Int(1))]);
    let errors = errors_of(&accept, &extra);
    assert_eq!(errors.len(), 1);
    assert!(matches!(errors.get(0).value, ErrorValue::NotAllowed));
}

#[test]
fn non_string_key_is_rejected() {
    let schema = root(typed(InstanceType::Object));
    let value = Value::Object(vec![(Value::Bool(true), Value::Int(1))]);
    let errors = errors_of(&schema, &value);
    assert_eq!(errors.len(), 1);
    assert!(matches!(
        errors.get(0).value,
        ErrorValue::UnsupportedValue(UnsupportedValue::KeyNotString)
    ));
    assert_eq!(errors.get(0).span.as_ref().unwrap().dotted(), "???");
}

#[test]
fn integer_keys_are_stringified() {
    let schema = root(SchemaObject {
        object: Some(ObjectValidation {
            max_properties: None,
            min_properties: None,
            required: vec![s("5")],
            properties: vec![],
            pattern_properties: vec![],
            additional_properties: None,
            property_names: None,
        }),
        ..typed(InstanceType::Object)
    });
    let value = Value::Object(vec![(Value::Int(5), Value::Int(1))]);
    assert!(check(&schema, &value).is_ok());
}

#[test]
fn tagged_variant_resolves_through_properties() {
    let schema = root(SchemaObject {
        object: Some(ObjectValidation {
            max_properties: None,
            min_properties: None,
            required: vec![],
            properties: vec![(
                s("Known"),
                Schema::Object(SchemaObject {
                    array: Some(ArrayValidation {
                        items: Some(OneOrMany::One(Box::new(Schema::Object(typed(
                            InstanceType::Integer,
                        ))))),
                        additional_items: None,
                        max_items: None,
                        min_items: None,
                        unique_items: None,
                        contains: None,
                    }),
                    ..typed(InstanceType::Array)
                }),
            )],
            pattern_properties: vec![],
            additional_properties: None,
            property_names: None,
        }),
        ..typed(InstanceType::Object)
    });
    let good = Value::Tagged(s("Known"), Box::new(Value::Array(vec![Value::Int(1)])));
    assert!(check(&schema, &good).is_ok());
    let bad = Value::Tagged(s("Known"), Box::new(Value::Array(vec![Value::Str(s("no"))])));
    let errors = errors_of(&schema, &bad);
    assert_eq!(errors.len(), 1);
    assert!(matches!(errors.get(0).value, ErrorValue::InvalidType { .. }));
    assert_eq!(errors.get(0).span.as_ref().unwrap().dotted(), "Known.0");

    // An unmatched tag accepts everything below it.
    let unknown = Value::Tagged(s("Unknown"), Box::new(Value::Array(vec![Value::Str(s("x"))])));
    assert!(check(&schema, &unknown).is_ok());
}

#[test]
fn if_then_else_applies_consequence() {
    let schema = root(SchemaObject {
        subschemas: Some(verify::schema::SubschemaValidation {
            all_of: None,
            any_of: None,
            one_of: None,
            not: None,
            if_schema: Some(Box::new(branch("small", 0))),
            then_schema: Some(Box::new(Schema::Object(SchemaObject {
                number: Some(NumberValidation {
                    multiple_of: Some(2),
                    minimum: None,
                    exclusive_minimum: None,
                    maximum: None,
                    exclusive_maximum: None,
                }),
                ..typed(InstanceType::Integer)
            }))),
            else_schema: Some(Box::new(Schema::Bool(false))),
        }),
        ..SchemaObject::new()
    });
    assert!(check(&schema, &Value::Int(4)).is_ok());
    let odd = errors_of(&schema, &Value::Int(3));
    assert_eq!(odd.len(), 1);
    assert!(matches!(odd.get(0).value, ErrorValue::NotMultipleOf { multiple_of: 2 }));
    let negative = errors_of(&schema, &Value::Int(-2));
    assert_eq!(negative.len(), 1);
    assert!(matches!(negative.get(0).value, ErrorValue::NotAllowed));
}

#[test]
fn not_schema_rejects_matches() {
    let schema = root(SchemaObject {
        subschemas: Some(verify::schema::SubschemaValidation {
            all_of: None,
            any_of: None,
            one_of: None,
            not: Some(Box::new(branch("banned", 100))),
            if_schema: None,
            then_schema: None,
            else_schema: None,
        }),
        ..SchemaObject::new()
    });
    assert!(check(&schema, &Value::Int(5)).is_ok());
    let errors = errors_of(&schema, &Value::Int(200));
    assert_eq!(errors.len(), 1);
    assert!(matches!(errors.get(0).value, ErrorValue::ValidNot { .. }));
}

#[test]
fn property_count_bounds() {
    let schema = root(SchemaObject {
        object: Some(ObjectValidation {
            max_properties: Some(2),
            min_properties: Some(1),
            required: vec![],
            properties: vec![],
            pattern_properties: vec![],
            additional_properties: None,
            property_names: None,
        }),
        ..typed(InstanceType::Object)
    });
    let empty = Value::Object(vec![]);
    let few = errors_of(&schema, &empty);
    assert_eq!(few.len(), 1);
    assert!(matches!(few.get(0).value, ErrorValue::NotEnoughProperties { min: 1 }));
    let crowded = Value::Object(vec![
        (Value::Str(s("a")), Value::Int(1)),
        (Value::Str(s("b")), Value::Int(2)),
        (Value::Str(s("c")), Value::Int(3)),
    ]);
    let many = errors_of(&schema, &crowded);
    assert_eq!(many.len(), 1);
    assert!(matches!(many.get(0).value, ErrorValue::TooManyProperties { max: 2 }));
}

#[test]
fn pattern_properties_apply_in_order() {
    let schema = root(SchemaObject {
        object: Some(ObjectValidation {
            max_properties: None,
            min_properties: None,
            required: vec![],
            properties: vec![],
            pattern_properties: vec![
                (s("^x_"), Schema::Object(typed(InstanceType::Integer))),
                (s("^x"), Schema::Object(typed(InstanceType::Str))),
            ],
            additional_properties: None,
            property_names: None,
        }),
        ..typed(InstanceType::Object)
    });
    // The first matching pattern governs: x_n must be an integer even
    // though the second pattern also matches.
    let good = Value::Object(vec![(Value::Str(s("x_n")), Value::Int(1))]);
    assert!(check(&schema, &good).is_ok());
    let bad = Value::Object(vec![(Value::Str(s("x_n")), Value::Str(s("t")))]);
    let errors = errors_of(&schema, &bad);
    assert_eq!(errors.len(), 1);
    assert!(matches!(errors.get(0).value, ErrorValue::InvalidType { .. }));
}

#[test]
fn exclusive_bounds_and_upper_violations() {
    let schema = root(SchemaObject {
        number: Some(NumberValidation {
            multiple_of: None,
            minimum: Some(0),
            exclusive_minimum: Some(true),
            maximum: Some(10),
            exclusive_maximum: Some(true),
        }),
        ..typed(InstanceType::Integer)
    });
    assert!(check(&schema, &Value::Int(5)).is_ok());
    let at_lower = errors_of(&schema, &Value::Int(0));
    assert_eq!(at_lower.len(), 1);
    assert!(matches!(
        at_lower.get(0).value,
        ErrorValue::LessThanExpected { min: 0, exclusive: true }
    ));
    let at_upper = errors_of(&schema, &Value::Int(10));
    assert_eq!(at_upper.len(), 1);
    assert!(matches!(
        at_upper.get(0).value,
        ErrorValue::MoreThanExpected { max: 10, exclusive: true }
    ));
}

#[test]
fn one_error_for_string_too_short() {
    let schema = root(SchemaObject {
        string: Some(StringValidation { max_length: None, min_length: Some(2), pattern: None }),
        ..typed(InstanceType::Str)
    });
    let errors = errors_of(&schema, &Value::Str(s("a")));
    assert_eq!(errors.len(), 1);
    assert!(matches!(errors.get(0).value, ErrorValue::TooShort { min_length: 2 }));
}

#[test]
fn property_names_schema_judges_keys() {
    let schema = root(SchemaObject {
        object: Some(ObjectValidation {
            max_properties: None,
            min_properties: None,
            required: vec![],
            properties: vec![],
            pattern_properties: vec![],
            additional_properties: None,
            property_names: Some(Box::new(Schema::Object(SchemaObject {
                string: Some(StringValidation {
                    max_length: Some(2),
                    min_length: None,
                    pattern: None,
                }),
                ..typed(InstanceType::Str)
            }))),
        }),
        ..typed(InstanceType::Object)
    });
    let good = Value::Object(vec![(Value::Str(s("ab")), Value::Int(1))]);
    assert!(check(&schema, &good).is_ok());
    let bad = Value::Object(vec![(Value::Str(s("abc")), Value::Int(1))]);
    let errors = errors_of(&schema, &bad);
    assert_eq!(errors.len(), 1);
    assert!(matches!(errors.get(0).value, ErrorValue::TooLong { max_length: 2 }));
}

#[test]
fn positional_items_with_additional_items() {
    let schema = root(SchemaObject {
        array: Some(ArrayValidation {
            items: Some(OneOrMany::Many(vec![
                Schema::Object(typed(InstanceType::Integer)),
                Schema::Object(typed(InstanceType::Str)),
            ])),
            additional_items: Some(Box::new(Schema::Object(typed(InstanceType::Boolean)))),
            max_items: None,
            min_items: None,
            unique_items: None,
            contains: None,
        }),
        ..typed(InstanceType::Array)
    });
    let good = Value::Array(vec![Value::Int(1), Value::Str(s("x")), Value::Bool(true)]);
    assert!(check(&schema, &good).is_ok());
    let bad = Value::Array(vec![Value::Int(1), Value::Str(s("x")), Value::Int(9)]);
    let errors = errors_of(&schema, &bad);
    assert_eq!(errors.len(), 1);
    assert!(matches!(errors.get(0).value, ErrorValue::InvalidType { .. }));
    assert_eq!(errors.get(0).span.as_ref().unwrap().dotted(), "2");
}

#[test]
fn tagged_variant_resolves_through_patterns() {
    let schema = root(SchemaObject {
        object: Some(ObjectValidation {
            max_properties: None,
            min_properties: None,
            required: vec![],
            properties: vec![],
            pattern_properties: vec![(
                s("^Var"),
                Schema::Object(SchemaObject {
                    object: Some(ObjectValidation {
                        max_properties: None,
                        min_properties: None,
                        required: vec![s("n")],
                        properties: vec![],
                        pattern_properties: vec![],
                        additional_properties: None,
                        property_names: None,
                    }),
                    ..typed(InstanceType::Object)
                }),
            )],
            additional_properties: None,
            property_names: None,
        }),
        ..typed(InstanceType::Object)
    });
    let good = Value::Tagged(
        s("VarA"),
        Box::new(Value::Object(vec![(Value::Str(s("n")), Value::Int(1))])),
    );
    assert!(check(&schema, &good).is_ok());
    let bad = Value::Tagged(s("VarA"), Box::new(Value::Object(vec![])));
    let errors = errors_of(&schema, &bad);
    assert_eq!(errors.len(), 1);
    assert!(matches!(errors.get(0).value, ErrorValue::RequiredProperty { .. }));
}

#[test]
fn newtype_variant_validates_as_single_entry_map() {
    // A tagged value with a plain payload is judged as the one-entry map
    // it stands for.
    let schema = root(SchemaObject {
        object: Some(ObjectValidation {
            max_properties: None,
            min_properties: None,
            required: vec![s("Wrap")],
            properties: vec![(s("Wrap"), Schema::Object(typed(InstanceType::Integer)))],
            pattern_properties: vec![],
            additional_properties: None,
            property_names: None,
        }),
        ..typed(InstanceType::Object)
    });
    let good = Value::Tagged(s("Wrap"), Box::new(Value::Int(3)));
    assert!(check(&schema, &good).is_ok());
    let bad = Value::Tagged(s("Wrap"), Box::new(Value::Str(s("no"))));
    let errors = errors_of(&schema, &bad);
    assert_eq!(errors.len(), 1);
    assert!(matches!(errors.get(0).value, ErrorValue::InvalidType { .. }));
    assert_eq!(errors.get(0).span.as_ref().unwrap().dotted(), "Wrap");
}
