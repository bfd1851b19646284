//! Canonical diagnostic text: every failure kind renders as one line, an
//! aggregate as its failures' lines joined by newlines, and a location as
//! its segments joined by dots. Strings inside values are quoted but not
//! escaped.

use vstd::prelude::*;

use crate::errors::{
    err_view, errval_view, lemma_errslist_view, lemma_errvec_view, Error, Errors, ErrorValue,
    InvalidSchema, SpecError, SpecErrorValue, UnsupportedValue,
};
use crate::schema::{InstanceType, SpecTypes};
use crate::span::dotted_spec;
use crate::strings::{i64_to_string, int_str, u64_to_string, usize_to_string};
use crate::value::{lemma_eviews, lemma_vviews, SpecValue, Value};

verus! {

/// The name of an instance type.
pub open spec fn kind_label_spec(t: InstanceType) -> Seq<char> {
    match t {
        InstanceType::Null => "Null"@,
        InstanceType::Boolean => "Boolean"@,
        InstanceType::Object => "Object"@,
        InstanceType::Array => "Array"@,
        InstanceType::Number => "Number"@,
        InstanceType::Str => "String"@,
        InstanceType::Integer => "Integer"@,
    }
}

/// The name of an instance type.
pub fn kind_label(t: InstanceType) -> (r: &'static str)
    ensures
        r@ == kind_label_spec(t),
{
    match t {
        InstanceType::Null => "Null",
        InstanceType::Boolean => "Boolean",
        InstanceType::Object => "Object",
        InstanceType::Array => "Array",
        InstanceType::Number => "Number",
        InstanceType::Str => "String",
        InstanceType::Integer => "Integer",
    }
}

/// The quoted names of the first `i` types, joined by commas.
pub open spec fn types_joined(ts: Seq<InstanceType>, i: int) -> Seq<char>
    decreases i,
{
    if i <= 0 || i > ts.len() {
        Seq::empty()
    } else if i == 1 {
        "\""@ + kind_label_spec(ts[0]) + "\""@
    } else {
        types_joined(ts, i - 1) + ", "@ + "\""@ + kind_label_spec(ts[i - 1]) + "\""@
    }
}

/// The text of a declared type constraint.
pub open spec fn types_text(t: SpecTypes) -> Seq<char> {
    match t {
        SpecTypes::One(x) => "\""@ + kind_label_spec(x) + "\""@,
        SpecTypes::Many(ts) => "one of {"@ + types_joined(ts, ts.len() as int) + "}"@,
    }
}

/// The text of a value: quoted strings, decimal numbers, bracketed
/// sequences and braced maps.
pub open spec fn value_text(v: SpecValue) -> Seq<char>
    decreases v, 1int,
{
    match v {
        SpecValue::Bool(b) => if b {
            "true"@
        } else {
            "false"@
        },
        SpecValue::Int(i) => int_str(i),
        SpecValue::Str(s) => "\""@ + s + "\""@,
        SpecValue::Null => "null"@,
        SpecValue::Array(items) => "["@ + values_joined(items, items.len() as int) + "]"@,
        SpecValue::Object(entries) => "{"@ + entries_joined(entries, entries.len() as int) + "}"@,
        SpecValue::Tagged(tag, payload) => "{\""@ + tag + "\": "@ + value_text(*payload) + "}"@,
    }
}

/// The texts of the first `i` values, joined by commas.
pub open spec fn values_joined(vs: Seq<SpecValue>, i: int) -> Seq<char>
    decreases vs, 0int, i,
{
    if i <= 0 || i > vs.len() {
        Seq::empty()
    } else if i == 1 {
        value_text(vs[0])
    } else {
        values_joined(vs, i - 1) + ", "@ + value_text(vs[i - 1])
    }
}

/// The texts of the first `i` entries, joined by commas.
pub open spec fn entries_joined(es: Seq<(SpecValue, SpecValue)>, i: int) -> Seq<char>
    decreases es, 0int, i,
{
    if i <= 0 || i > es.len() {
        Seq::empty()
    } else if i == 1 {
        value_text(es[0].0) + ": "@ + value_text(es[0].1)
    } else {
        entries_joined(es, i - 1) + ", "@ + value_text(es[i - 1].0) + ": "@ + value_text(
            es[i - 1].1,
        )
    }
}

/// The text of a value.
#[verifier::loop_isolation(false)]
pub fn render_value(v: &Value) -> (r: String)
    ensures
        r@ == value_text(v@),
    decreases *v, 1int,
{
    match v {
        Value::Bool(b) => {
            if *b {
                String::from_str("true")
            } else {
                String::from_str("false")
            }
        },
        Value::Int(i) => i64_to_string(*i),
        Value::Str(s) => {
            let mut out = String::from_str("\"");
            out.append(s.as_str());
            out.append("\"");
            proof {
                assert(out@ =~= value_text(v@));
            }
            out
        },
        Value::Null => String::from_str("null"),
        Value::Array(items) => {
            let ghost m = crate::value::vviews(items@);
            proof {
                lemma_vviews(items@);
            }
            let mut out = String::from_str("[");
            let n = items.len();
            let mut i: usize = 0;
            while i < n
                invariant
                    0 <= i <= n,
                    out@ == "["@ + values_joined(m, i as int),
                decreases n - i,
            {
                proof {
                    assert(decreases_to!(*v => v->Array_0@[i as int]));
                }
                if i > 0 {
                    out.append(", ");
                }
                let t = render_value(&items[i]);
                out.append(t.as_str());
                i += 1;
            }
            out.append("]");
            proof {
                assert(out@ =~= value_text(v@));
            }
            out
        },
        Value::Object(entries) => {
            let ghost m = crate::value::eviews(entries@);
            proof {
                lemma_eviews(entries@);
            }
            let mut out = String::from_str("{");
            let n = entries.len();
            let mut i: usize = 0;
            while i < n
                invariant
                    0 <= i <= n,
                    out@ == "{"@ + entries_joined(m, i as int),
                decreases n - i,
            {
                proof {
                    assert(decreases_to!(*v => v->Object_0@[i as int].0));
                    assert(decreases_to!(*v => v->Object_0@[i as int].1));
                }
                if i > 0 {
                    out.append(", ");
                }
                let tk = render_value(&entries[i].0);
                out.append(tk.as_str());
                out.append(": ");
                let tv = render_value(&entries[i].1);
                out.append(tv.as_str());
                i += 1;
            }
            out.append("}");
            proof {
                assert(out@ =~= value_text(v@));
            }
            out
        },
        Value::Tagged(tag, payload) => {
            let mut out = String::from_str("{\"");
            out.append(tag.as_str());
            out.append("\": ");
            let t = render_value(payload);
            out.append(t.as_str());
            out.append("}");
            proof {
                assert(out@ =~= value_text(v@));
            }
            out
        },
    }
}

/// The one-line text of a failure kind.
pub open spec fn errval_text(e: SpecErrorValue) -> Seq<char>
    decreases e, 3int,
{
    match e {
        SpecErrorValue::NotAllowed => "value is not allowed here"@,
        SpecErrorValue::MissingDefinition(name) => "invalid schema: missing local definition \""@
            + name + "\""@,
        SpecErrorValue::InvalidPattern(p) => "invalid schema: invalid regex pattern \""@ + p
            + "\""@,
        SpecErrorValue::ExternalReference(r) =>
        "invalid schema: the schema contains unresolved external reference: \""@ + r + "\""@,
        SpecErrorValue::KeyNotString => "unsupported value: map key must be a string"@,
        SpecErrorValue::InvalidType { expected } => "invalid type, expected "@ + types_text(
            expected,
        ),
        SpecErrorValue::InvalidEnumValue { expected } =>
        "invalid enum value, expected to be one of {"@ + values_joined(
            expected,
            expected.len() as int,
        ) + "}"@,
        SpecErrorValue::NotMultipleOf { multiple_of } =>
        "the value is expected to be multiple of "@ + int_str(multiple_of),
        SpecErrorValue::LessThanExpected { min, exclusive } => if exclusive {
            "the value is expected to be more than "@ + int_str(min)
        } else {
            "the value is expected to be at least "@ + int_str(min)
        },
        SpecErrorValue::MoreThanExpected { max, exclusive } => if exclusive {
            "the value is expected to be less than "@ + int_str(max)
        } else {
            "the value is expected to be at most "@ + int_str(max)
        },
        SpecErrorValue::NoPatternMatch { pattern } => "the string must match the pattern \""@
            + pattern + "\""@,
        SpecErrorValue::TooLong { max_length } => "the string must not be longer than "@ + int_str(
            max_length,
        ) + " characters"@,
        SpecErrorValue::TooShort { min_length } => "the string must be at least "@ + int_str(
            min_length,
        ) + " characters long"@,
        SpecErrorValue::NoneValid { errors } => "no subschema matched the value: "@ + sets_joined(
            errors,
            errors.len() as int,
        ),
        SpecErrorValue::MoreThanOneValid { matched } =>
        "expected exactly one schema to match, but "@ + int_str(matched.len() as int)
            + " schemas matched"@,
        SpecErrorValue::ValidNot { matched } => match matched {
            Some(m) => match m.title {
                Some(t) => "the value must not be a \""@ + t + "\""@,
                None => "the value is disallowed by a \"not\" schema"@,
            },
            None => "the value is disallowed by a \"not\" schema"@,
        },
        SpecErrorValue::NotUnique { first, duplicate } => match (first, duplicate) {
            (Some(f), Some(d)) => "all items in the array must be unique, but \""@ + dotted_spec(f)
                + "\" and \""@ + dotted_spec(d) + "\" are the same"@,
            _ => "all items in the array must be unique"@,
        },
        SpecErrorValue::MustContain { schema } => match schema {
            Some(m) => match m.title {
                Some(t) => "at least one of the items in the array must be \""@ + t + "\""@,
                None => "at least one of the items in the array must match the given schema"@,
            },
            None => "at least one of the items in the array must match the given schema"@,
        },
        SpecErrorValue::NotEnoughItems { min } => "the array must have at least "@ + int_str(min)
            + " items"@,
        SpecErrorValue::TooManyItems { max } => "the array cannot have more than "@ + int_str(max)
            + " items"@,
        SpecErrorValue::NotEnoughProperties { min } => "the object must have at least "@ + int_str(
            min,
        ) + " properties"@,
        SpecErrorValue::TooManyProperties { max } => "the object cannot have more than "@
            + int_str(max) + " properties"@,
        SpecErrorValue::RequiredProperty { name } => "the required property \""@ + name
            + "\" is missing"@,
        SpecErrorValue::Custom(msg) => msg,
    }
}

/// The one-line text of a failure: its location in parentheses, then the
/// kind's text.
pub open spec fn err_text(e: SpecError) -> Seq<char>
    decreases e, 4int,
{
    (match e.span {
        Some(s) => "("@ + dotted_spec(s) + ") "@,
        None => Seq::empty(),
    }) + errval_text(e.value)
}

/// The texts of the first `i` failures of one set, joined by semicolons.
pub open spec fn set_joined(errs: Seq<SpecError>, i: int) -> Seq<char>
    decreases errs, 5int, i,
{
    if i <= 0 || i > errs.len() {
        Seq::empty()
    } else if i == 1 {
        err_text(errs[0])
    } else {
        set_joined(errs, i - 1) + "; "@ + err_text(errs[i - 1])
    }
}

/// The bracketed texts of the first `i` failure sets, joined by spaces.
pub open spec fn sets_joined(sets: Seq<Seq<SpecError>>, i: int) -> Seq<char>
    decreases sets, 6int, i,
{
    if i <= 0 || i > sets.len() {
        Seq::empty()
    } else if i == 1 {
        "["@ + set_joined(sets[0], sets[0].len() as int) + "]"@
    } else {
        sets_joined(sets, i - 1) + " "@ + "["@ + set_joined(
            sets[i - 1],
            sets[i - 1].len() as int,
        ) + "]"@
    }
}

/// The texts of the failures of an aggregate, joined by newlines.
pub open spec fn errors_text(errs: Seq<SpecError>) -> Seq<char>
    decreases errs, 7int,
{
    lines_joined(errs, errs.len() as int)
}

/// The texts of the first `i` failures, joined by newlines.
pub open spec fn lines_joined(errs: Seq<SpecError>, i: int) -> Seq<char>
    decreases errs, 6int, i,
{
    if i <= 0 || i > errs.len() {
        Seq::empty()
    } else if i == 1 {
        err_text(errs[0])
    } else {
        lines_joined(errs, i - 1) + "\n"@ + err_text(errs[i - 1])
    }
}

impl ErrorValue {
    /// The one-line text of this failure kind.
    #[verifier::loop_isolation(false)]
    #[verifier::rlimit(100)]
    #[verifier::spinoff_prover]
    pub fn message(&self) -> (r: String)
        ensures
            r@ == errval_text(errval_view(*self)),
        decreases *self, 3int,
    {
        match self {
            ErrorValue::NotAllowed => String::from_str("value is not allowed here"),
            ErrorValue::InvalidSchema(s) => {
                match s {
                    InvalidSchema::MissingDefinition(name) => {
                        let mut out = String::from_str(
                            "invalid schema: missing local definition \"",
                        );
                        out.append(name.as_str());
                        out.append("\"");
                        proof {
                            assert(out@ =~= errval_text(errval_view(*self)));
                        }
                        out
                    },
                    InvalidSchema::InvalidPattern { pattern } => {
                        let mut out = String::from_str("invalid schema: invalid regex pattern \"");
                        out.append(pattern.as_str());
                        out.append("\"");
                        proof {
                            assert(out@ =~= errval_text(errval_view(*self)));
                        }
                        out
                    },
                    InvalidSchema::ExternalReference(r) => {
                        let mut out = String::from_str(
                            "invalid schema: the schema contains unresolved external reference: \"",
                        );
                        out.append(r.as_str());
                        out.append("\"");
                        proof {
                            assert(out@ =~= errval_text(errval_view(*self)));
                        }
                        out
                    },
                }
            },
            ErrorValue::UnsupportedValue(u) => {
                match u {
                    UnsupportedValue::KeyNotString => String::from_str(
                        "unsupported value: map key must be a string",
                    ),
                }
            },
            ErrorValue::InvalidType { expected } => {
                let mut out = String::from_str("invalid type, expected ");
                match expected {
                    crate::schema::OneOrMany::One(x) => {
                        out.append("\"");
                        out.append(kind_label(**x));
                        out.append("\"");
                    },
                    crate::schema::OneOrMany::Many(ts) => {
                        out.append("one of {");
                        let n = ts.len();
                        let mut i: usize = 0;
                        while i < n
                            invariant
                                0 <= i <= n,
                                out@ == "invalid type, expected "@ + "one of {"@ + types_joined(
                                    ts@,
                                    i as int,
                                ),
                            decreases n - i,
                        {
                            if i > 0 {
                                out.append(", ");
                            }
                            out.append("\"");
                            out.append(kind_label(ts[i]));
                            out.append("\"");
                            i += 1;
                        }
                        out.append("}");
                    },
                }
                proof {
                    assert(out@ =~= errval_text(errval_view(*self)));
                }
                out
            },
            ErrorValue::InvalidEnumValue { expected } => {
                let ghost m = crate::value::vviews(expected@);
                proof {
                    lemma_vviews(expected@);
                }
                let mut out = String::from_str("invalid enum value, expected to be one of {");
                let n = expected.len();
                let mut i: usize = 0;
                while i < n
                    invariant
                        0 <= i <= n,
                        out@ == "invalid enum value, expected to be one of {"@ + values_joined(
                            m,
                            i as int,
                        ),
                    decreases n - i,
                {
                    if i > 0 {
                        out.append(", ");
                    }
                    let t = render_value(&expected[i]);
                    out.append(t.as_str());
                    i += 1;
                }
                out.append("}");
                proof {
                    assert(out@ =~= errval_text(errval_view(*self)));
                }
                out
            },
            ErrorValue::NotMultipleOf { multiple_of } => {
                let mut out = String::from_str("the value is expected to be multiple of ");
                let t = i64_to_string(*multiple_of);
                out.append(t.as_str());
                out
            },
            ErrorValue::LessThanExpected { min, exclusive } => {
                let mut out = if *exclusive {
                    String::from_str("the value is expected to be more than ")
                } else {
                    String::from_str("the value is expected to be at least ")
                };
                let t = i64_to_string(*min);
                out.append(t.as_str());
                out
            },
            ErrorValue::MoreThanExpected { max, exclusive } => {
                let mut out = if *exclusive {
                    String::from_str("the value is expected to be less than ")
                } else {
                    String::from_str("the value is expected to be at most ")
                };
                let t = i64_to_string(*max);
                out.append(t.as_str());
                out
            },
            ErrorValue::NoPatternMatch { pattern } => {
                let mut out = String::from_str("the string must match the pattern \"");
                out.append(pattern.as_str());
                out.append("\"");
                proof {
                    assert(out@ =~= errval_text(errval_view(*self)));
                }
                out
            },
            ErrorValue::TooLong { max_length } => {
                let mut out = String::from_str("the string must not be longer than ");
                let t = u64_to_string(*max_length as u64);
                out.append(t.as_str());
                out.append(" characters");
                proof {
                    assert(out@ =~= errval_text(errval_view(*self)));
                }
                out
            },
            ErrorValue::TooShort { min_length } => {
                let mut out = String::from_str("the string must be at least ");
                let t = u64_to_string(*min_length as u64);
                out.append(t.as_str());
                out.append(" characters long");
                proof {
                    assert(out@ =~= errval_text(errval_view(*self)));
                }
                out
            },
            ErrorValue::NoneValid { errors } => {
                let ghost sets = crate::errors::errslist_view(errors@);
                proof {
                    lemma_errslist_view(errors@);
                }
                let mut out = String::from_str("no subschema matched the value: ");
                let n = errors.len();
                let mut i: usize = 0;
                while i < n
                    invariant
                        0 <= i <= n,
                        out@ == "no subschema matched the value: "@ + sets_joined(sets, i as int),
                    decreases n - i,
                {
                    proof {
                        assert(decreases_to!(*self =>
                            self->NoneValid_errors@[i as int]));
                    }
                    if i > 0 {
                        out.append(" ");
                    }
                    out.append("[");
                    let t = errors[i].message_line();
                    out.append(t.as_str());
                    out.append("]");
                    i += 1;
                }
                proof {
                    assert(out@ =~= errval_text(errval_view(*self)));
                }
                out
            },
            ErrorValue::MoreThanOneValid { matched } => {
                let mut out = String::from_str("expected exactly one schema to match, but ");
                let t = usize_to_string(matched.len());
                out.append(t.as_str());
                out.append(" schemas matched");
                proof {
                    crate::errors::lemma_metas_view(matched@);
                    assert(out@ =~= errval_text(errval_view(*self)));
                }
                out
            },
            ErrorValue::ValidNot { matched } => {
                match matched {
                    Some(m) => match &m.title {
                        Some(t) => {
                            let mut out = String::from_str("the value must not be a \"");
                            out.append(t.as_str());
                            out.append("\"");
                            proof {
                                assert(out@ =~= errval_text(errval_view(*self)));
                            }
                            out
                        },
                        None => String::from_str("the value is disallowed by a \"not\" schema"),
                    },
                    None => String::from_str("the value is disallowed by a \"not\" schema"),
                }
            },
            ErrorValue::NotUnique { first, duplicate } => {
                match (first, duplicate) {
                    (Some(f), Some(d)) => {
                        let mut out = String::from_str(
                            "all items in the array must be unique, but \"",
                        );
                        let df = f.dotted();
                        out.append(df.as_str());
                        out.append("\" and \"");
                        let dd = d.dotted();
                        out.append(dd.as_str());
                        out.append("\" are the same");
                        proof {
                            assert(out@ =~= errval_text(errval_view(*self)));
                        }
                        out
                    },
                    _ => String::from_str("all items in the array must be unique"),
                }
            },
            ErrorValue::MustContain { schema } => {
                match schema {
                    Some(m) => match &m.title {
                        Some(t) => {
                            let mut out = String::from_str(
                                "at least one of the items in the array must be \"",
                            );
                            out.append(t.as_str());
                            out.append("\"");
                            proof {
                                assert(out@ =~= errval_text(errval_view(*self)));
                            }
                            out
                        },
                        None => String::from_str(
                            "at least one of the items in the array must match the given schema",
                        ),
                    },
                    None => String::from_str(
                        "at least one of the items in the array must match the given schema",
                    ),
                }
            },
            ErrorValue::NotEnoughItems { min } => {
                let mut out = String::from_str("the array must have at least ");
                let t = usize_to_string(*min);
                out.append(t.as_str());
                out.append(" items");
                proof {
                    assert(out@ =~= errval_text(errval_view(*self)));
                }
                out
            },
            ErrorValue::TooManyItems { max } => {
                let mut out = String::from_str("the array cannot have more than ");
                let t = usize_to_string(*max);
                out.append(t.as_str());
                out.append(" items");
                proof {
                    assert(out@ =~= errval_text(errval_view(*self)));
                }
                out
            },
            ErrorValue::NotEnoughProperties { min } => {
                let mut out = String::from_str("the object must have at least ");
                let t = usize_to_string(*min);
                out.append(t.as_str());
                out.append(" properties");
                proof {
                    assert(out@ =~= errval_text(errval_view(*self)));
                }
                out
            },
            ErrorValue::TooManyProperties { max } => {
                let mut out = String::from_str("the object cannot have more than ");
                let t = usize_to_string(*max);
                out.append(t.as_str());
                out.append(" properties");
                proof {
                    assert(out@ =~= errval_text(errval_view(*self)));
                }
                out
            },
            ErrorValue::RequiredProperty { name } => {
                let mut out = String::from_str("the required property \"");
                out.append(name.as_str());
                out.append("\" is missing");
                proof {
                    assert(out@ =~= errval_text(errval_view(*self)));
                }
                out
            },
            ErrorValue::Custom(msg) => msg.clone(),
        }
    }
}

impl Error {
    /// The one-line text of this failure: its location in parentheses,
    /// then the kind's text.
    pub fn message(&self) -> (r: String)
        ensures
            r@ == err_text(err_view(*self)),
        decreases *self, 4int,
    {
        let mut out = match &self.span {
            Some(s) => {
                let mut p = String::from_str("(");
                let d = s.dotted();
                p.append(d.as_str());
                p.append(") ");
                p
            },
            None => String::new(),
        };
        let t = self.value.message();
        out.append(t.as_str());
        proof {
            assert(out@ =~= err_text(err_view(*self)));
        }
        out
    }
}

impl Errors {
    /// The texts of the collected failures within one line, joined by
    /// semicolons.
    #[verifier::loop_isolation(false)]
    pub fn message_line(&self) -> (r: String)
        ensures
            r@ == set_joined(self@, self@.len() as int),
        decreases *self, 5int,
    {
        let ghost m = self@;
        proof {
            lemma_errvec_view(self.0@);
        }
        let mut out = String::new();
        let n = self.0.len();
        let mut i: usize = 0;
        while i < n
            invariant
                0 <= i <= n,
                out@ == set_joined(m, i as int),
            decreases n - i,
        {
            proof {
                assert(decreases_to!(*self => self.0@[i as int]));
            }
            if i > 0 {
                out.append("; ");
            }
            let t = self.0[i].message();
            out.append(t.as_str());
            i += 1;
        }
        out
    }

    /// The texts of the collected failures, one line each.
    #[verifier::loop_isolation(false)]
    pub fn message(&self) -> (r: String)
        ensures
            r@ == errors_text(self@),
        decreases *self, 7int,
    {
        let ghost m = self@;
        proof {
            lemma_errvec_view(self.0@);
        }
        let mut out = String::new();
        let n = self.0.len();
        let mut i: usize = 0;
        while i < n
            invariant
                0 <= i <= n,
                out@ == lines_joined(m, i as int),
            decreases n - i,
        {
            proof {
                assert(decreases_to!(*self => self.0@[i as int]));
            }
            if i > 0 {
                out.append("\n");
            }
            let t = self.0[i].message();
            out.append(t.as_str());
            i += 1;
        }
        out
    }
}

} // verus!
