use verify::errors::{Error, ErrorExt, Errors, ErrorValue};
use verify::render::render_value;
use verify::span::{combined, Keys, SpanExt, Spanned as SpannedLoc};
use verify::strings::{i64_to_string, u64_to_string};
use verify::traverse::{KeySpans, NewSpan, Spanned, Spans};
use verify::value::{value_clone, value_eq, Value};

fn s(x: &str) -> String {
    x.to_string()
}

fn keys(parts: &[&str]) -> Keys {
    let mut k = Keys::new();
    for p in parts {
        k.push(s(p));
    }
    k
}

#[test]
fn dotted_joins_segments() {
    assert_eq!(Keys::new().dotted(), "");
    assert_eq!(keys(&["a"]).dotted(), "a");
    assert_eq!(keys(&["a", "b", "c"]).dotted(), "a.b.c");
}

#[test]
fn keys_concatenate_in_order() {
    let mut a = keys(&["a", "b"]);
    a.append(keys(&["c"]));
    assert_eq!(a.dotted(), "a.b.c");
    let mut b = keys(&["x"]);
    SpanExt::combine(&mut b, keys(&["y"]));
    assert_eq!(b.dotted(), "x.y");
}

#[test]
fn optional_span_combination_rules() {
    // Present with present concatenates.
    let mut both: Option<Keys> = Some(keys(&["a"]));
    SpanExt::combine(&mut both, Some(keys(&["b"])));
    assert_eq!(both.unwrap().dotted(), "a.b");
    // Absent with present keeps the present one.
    let mut left: Option<Keys> = None;
    SpanExt::combine(&mut left, Some(keys(&["b"])));
    assert_eq!(left.unwrap().dotted(), "b");
    // Anything with absent clears.
    let mut cleared: Option<Keys> = Some(keys(&["a"]));
    SpanExt::combine(&mut cleared, None);
    assert!(cleared.is_none());
    // The non-mutating parent-with-step rule keeps the parent when the
    // step is absent.
    let kept = combined(&Some(keys(&["p"])), &None);
    assert_eq!(kept.unwrap().dotted(), "p");
}

#[test]
fn key_spans_assign_positions_and_keys() {
    let mut sp = KeySpans::default();
    match sp.key(&Value::Str(s("name"))) {
        NewSpan::Add(Some(k)) => assert_eq!(k.dotted(), "name"),
        _ => panic!("a key must contribute its own segment"),
    }
    match sp.key(&Value::Int(7)) {
        NewSpan::Add(Some(k)) => assert_eq!(k.dotted(), "7"),
        _ => panic!("an integer key must contribute its decimal form"),
    }
    match sp.key(&Value::Bool(true)) {
        NewSpan::Add(Some(k)) => assert_eq!(k.dotted(), "???"),
        _ => panic!("a key with no string form must contribute a placeholder"),
    }
    assert!(matches!(sp.value(&Value::Null), NewSpan::NoChange));
    assert!(matches!(sp.seq_start(), NewSpan::NoChange));
    match sp.value(&Value::Null) {
        NewSpan::Add(Some(k)) => assert_eq!(k.dotted(), "0"),
        _ => panic!("a sequence element must contribute its position"),
    }
    match sp.value(&Value::Null) {
        NewSpan::Add(Some(k)) => assert_eq!(k.dotted(), "1"),
        _ => panic!("positions must advance"),
    }
    assert!(matches!(sp.seq_end(), NewSpan::Add(None)));
    assert!(matches!(sp.map_start(), NewSpan::NoChange));
    assert!(matches!(sp.map_end(), NewSpan::Add(None)));
    let fresh = sp.descend();
    let mut fresh2 = fresh;
    assert!(matches!(fresh2.value(&Value::Null), NewSpan::NoChange));
}

#[test]
fn spanned_wrapper_reports_no_location_at_first() {
    let v = Value::Int(3);
    let w = Spanned::new(&v, KeySpans::default());
    assert!(w.span().is_none());
}

#[test]
fn value_equality_is_deep() {
    let a = Value::Object(vec![(
        Value::Str(s("k")),
        Value::Array(vec![Value::Int(1), Value::Null]),
    )]);
    let b = value_clone(&a);
    assert!(value_eq(&a, &b));
    let c = Value::Object(vec![(
        Value::Str(s("k")),
        Value::Array(vec![Value::Int(2), Value::Null]),
    )]);
    assert!(!value_eq(&a, &c));
    assert!(!value_eq(&Value::Int(1), &Value::Bool(true)));
    assert!(value_eq(
        &Value::Tagged(s("T"), Box::new(Value::Null)),
        &Value::Tagged(s("T"), Box::new(Value::Null)),
    ));
    assert!(!value_eq(
        &Value::Tagged(s("T"), Box::new(Value::Null)),
        &Value::Tagged(s("U"), Box::new(Value::Null)),
    ));
}

#[test]
fn decimal_renderings() {
    assert_eq!(u64_to_string(0), "0");
    assert_eq!(u64_to_string(907), "907");
    assert_eq!(i64_to_string(-45), "-45");
    assert_eq!(i64_to_string(i64::MIN), "-9223372036854775808");
    assert_eq!(i64_to_string(i64::MAX), "9223372036854775807");
}

#[test]
fn value_renderings() {
    let v = Value::Object(vec![(
        Value::Str(s("k")),
        Value::Array(vec![Value::Int(-3), Value::Bool(false), Value::Null]),
    )]);
    assert_eq!(render_value(&v), "{\"k\": [-3, false, null]}");
    let t = Value::Tagged(s("T"), Box::new(Value::Int(1)));
    assert_eq!(render_value(&t), "{\"T\": 1}");
}

#[test]
fn error_messages_render_one_line() {
    let e = Error::new(
        None,
        Some(keys(&["a", "b"])),
        ErrorValue::RequiredProperty { name: s("b") },
    );
    assert_eq!(e.message(), "(a.b) the required property \"b\" is missing");
    let mut all = Errors::new();
    all.push(Error::new(None, None, ErrorValue::NotAllowed));
    all.push(Error::new(None, None, ErrorValue::TooLong { max_length: 3 }));
    assert_eq!(
        all.message(),
        "value is not allowed here\nthe string must not be longer than 3 characters"
    );
}

#[test]
fn error_collections_concatenate() {
    let mut a = Errors::new();
    a.push(Error::new(None, None, ErrorValue::NotAllowed));
    let mut b = Errors::new();
    b.push(Error::new(None, None, ErrorValue::RequiredProperty { name: s("x") }));
    ErrorExt::combine(&mut a, b);
    assert_eq!(a.len(), 2);
    assert!(matches!(a.get(0).value, ErrorValue::NotAllowed));
    assert!(matches!(a.get(1).value, ErrorValue::RequiredProperty { .. }));

    let custom = Errors::custom(s("boom"));
    assert_eq!(custom.len(), 1);
    assert!(matches!(custom.get(0).value, ErrorValue::Custom(_)));
    assert!(custom.get(0).span.is_none());

    let mut opt: Option<Errors> = Some(Errors::custom(s("x")));
    ErrorExt::combine(&mut opt, None);
    assert!(opt.is_none());
}
