//! The schema document's own integrity check: every local reference must
//! resolve, no reference may lead outside the document, and every regular
//! expression must compile. Locations are paths into the document itself,
//! not into instance data, and failures of independent children accumulate.

use vstd::prelude::*;

use crate::errors::{Error, Errors, ErrorValue, InvalidSchema, SpecError, SpecErrorValue};
use crate::model::ge;
use crate::pattern::{pattern_compiles, regex_compiles};
use crate::schema::{
    local_definition, local_definition_spec, lookup_def, lookup_def_spec, RootSchema, Schema,
    SchemaObject,
};
use crate::span::{Keys, SegSeq};
use crate::strings::{dec_digits, usize_to_string};

verus! {

/// The integrity failures of one node, located at `path` inside the
/// document.
pub open spec fn c_obj(defs: Seq<(String, Schema)>, obj: SchemaObject, path: SegSeq) -> Seq<
    SpecError,
>
    decreases obj, 8int, 0int,
{
    match obj.reference {
        Some(r) => match local_definition_spec(r@) {
            Some(name) => if lookup_def_spec(defs, name) is None {
                seq![ge(None, Some(path), SpecErrorValue::MissingDefinition(name))]
            } else {
                c_obj_rest(defs, obj, path)
            },
            None => seq![ge(None, Some(path), SpecErrorValue::ExternalReference(r@))],
        },
        None => c_obj_rest(defs, obj, path),
    }
}

/// The integrity failures of a node's combinators, object fields and string
/// pattern, in that order.
pub open spec fn c_obj_rest(defs: Seq<(String, Schema)>, obj: SchemaObject, path: SegSeq) -> Seq<
    SpecError,
>
    decreases obj, 7int, 0int,
{
    (match obj.subschemas {
        Some(sub) => (match sub.all_of {
            Some(list) => c_list(defs, list@, path, "allOf"@, list@.len() as int),
            None => Seq::empty(),
        }) + (match sub.one_of {
            Some(list) => c_list(defs, list@, path, "oneOf"@, list@.len() as int),
            None => Seq::empty(),
        }) + (match sub.any_of {
            Some(list) => c_list(defs, list@, path, "anyOf"@, list@.len() as int),
            None => Seq::empty(),
        }) + (match sub.not {
            Some(s) => c_schema(defs, *s, path.push("not"@)),
            None => Seq::empty(),
        }) + (match sub.if_schema {
            Some(s) => c_schema(defs, *s, path.push("if"@)),
            None => Seq::empty(),
        }) + (match sub.then_schema {
            Some(s) => c_schema(defs, *s, path.push("then"@)),
            None => Seq::empty(),
        }) + (match sub.else_schema {
            Some(s) => c_schema(defs, *s, path.push("else"@)),
            None => Seq::empty(),
        }),
        None => Seq::empty(),
    }) + (match obj.object {
        Some(ov) => c_patkeys(ov.pattern_properties@, path, ov.pattern_properties@.len() as int)
            + c_props(defs, ov.properties@, path, ov.properties@.len() as int) + (
        match ov.additional_properties {
            Some(s) => c_schema(defs, *s, path.push("additionalProperties"@)),
            None => Seq::empty(),
        }),
        None => Seq::empty(),
    }) + (match obj.string {
        Some(sv) => match sv.pattern {
            Some(p) => if !pattern_compiles(p@) {
                seq![
                    ge(
                        None,
                        Some(path.push("pattern"@)),
                        SpecErrorValue::InvalidPattern(p@),
                    ),
                ]
            } else {
                Seq::empty()
            },
            None => Seq::empty(),
        },
        None => Seq::empty(),
    })
}

/// The integrity failures of one node, boolean leaves having none.
pub open spec fn c_schema(defs: Seq<(String, Schema)>, s: Schema, path: SegSeq) -> Seq<SpecError>
    decreases s, 9int, 0int,
{
    match s {
        Schema::Bool(_) => Seq::empty(),
        Schema::Object(o) => c_obj(defs, o, path),
    }
}

/// The integrity failures of the first `i` schemas of a combinator list,
/// each under `path` extended by the list's label and the branch's
/// position.
pub open spec fn c_list(
    defs: Seq<(String, Schema)>,
    list: Seq<Schema>,
    path: SegSeq,
    label: Seq<char>,
    i: int,
) -> Seq<SpecError>
    decreases list, 5int, i,
{
    if i <= 0 || i > list.len() {
        Seq::empty()
    } else {
        c_list(defs, list, path, label, i - 1) + c_schema(
            defs,
            list[i - 1],
            path.push(label).push(dec_digits((i - 1) as nat)),
        )
    }
}

/// One failure for each of the first `i` pattern-property keys that does
/// not compile, in order.
pub open spec fn c_patkeys(props: Seq<(String, Schema)>, path: SegSeq, i: int) -> Seq<SpecError>
    decreases i,
{
    if i <= 0 || i > props.len() {
        Seq::empty()
    } else {
        c_patkeys(props, path, i - 1) + (if !pattern_compiles(props[i - 1].0@) {
            seq![
                ge(
                    None,
                    Some(path.push("patternProperties"@).push(props[i - 1].0@)),
                    SpecErrorValue::InvalidPattern(props[i - 1].0@),
                ),
            ]
        } else {
            Seq::empty()
        })
    }
}

/// The integrity failures of the first `i` named properties, each under
/// `path` extended by `properties` and the property's name.
pub open spec fn c_props(
    defs: Seq<(String, Schema)>,
    props: Seq<(String, Schema)>,
    path: SegSeq,
    i: int,
) -> Seq<SpecError>
    decreases props, 5int, i,
{
    if i <= 0 || i > props.len() {
        Seq::empty()
    } else {
        c_props(defs, props, path, i - 1) + c_schema(
            defs,
            props[i - 1].1,
            path.push("properties"@).push(props[i - 1].0@),
        )
    }
}

/// The integrity failures of the first `i` definitions, each under
/// `definitions` and its name.
pub open spec fn c_defs(defs: Seq<(String, Schema)>, i: int) -> Seq<SpecError>
    decreases defs, 5int, i,
{
    if i <= 0 || i > defs.len() {
        Seq::empty()
    } else {
        c_defs(defs, i - 1) + c_schema(
            defs,
            defs[i - 1].1,
            seq!["definitions"@, defs[i - 1].0@],
        )
    }
}

/// The integrity failures of a whole document: every definition first, then
/// the root node, whose path is empty.
pub open spec fn c_root(root: RootSchema) -> Seq<SpecError> {
    c_defs(root.definitions@, root.definitions@.len() as int) + c_obj(
        root.definitions@,
        root.schema,
        Seq::empty(),
    )
}

/// A document path: a location plus the fixed segments of one step.
fn path_with(span: &Keys, label: &str) -> (r: Keys)
    ensures
        r@ == span@.push(label@),
{
    let mut p = span.duplicate();
    p.push(String::from_str(label));
    p
}

/// Check the combinators of one node.
#[verifier::loop_isolation(false)]
#[verifier::rlimit(60)]
fn check_subschemas_part(
    schema: &SchemaObject,
    definitions: &Vec<(String, Schema)>,
    span: &Keys,
) -> (r: Errors)
    ensures
        r@ == c_obj_prefix_a(definitions@, *schema, span@),
    decreases *schema, 7int, 2int,
{
    let mut out = Errors::new();
    match &schema.subschemas {
        Some(sub) => {
            match &sub.all_of {
                Some(list) => {
                    proof {
                        assert(decreases_to!(*schema => schema.subschemas->0.all_of->0@));
                    }
                    check_list(&mut out, list, definitions, span, "allOf");
                },
                None => {},
            }
            match &sub.one_of {
                Some(list) => {
                    proof {
                        assert(decreases_to!(*schema => schema.subschemas->0.one_of->0@));
                    }
                    check_list(&mut out, list, definitions, span, "oneOf");
                },
                None => {},
            }
            match &sub.any_of {
                Some(list) => {
                    proof {
                        assert(decreases_to!(*schema => schema.subschemas->0.any_of->0@));
                    }
                    check_list(&mut out, list, definitions, span, "anyOf");
                },
                None => {},
            }
            match &sub.not {
                Some(s) => {
                    proof {
                        assert(decreases_to!(*schema => *schema.subschemas->0.not->0));
                    }
                    match verify_schema(s, definitions, path_with(span, "not")) {
                        Ok(()) => {},
                        Err(e) => out.combine(e),
                    }
                },
                None => {},
            }
            match &sub.if_schema {
                Some(s) => {
                    proof {
                        assert(decreases_to!(*schema => *schema.subschemas->0.if_schema->0));
                    }
                    match verify_schema(s, definitions, path_with(span, "if")) {
                        Ok(()) => {},
                        Err(e) => out.combine(e),
                    }
                },
                None => {},
            }
            match &sub.then_schema {
                Some(s) => {
                    proof {
                        assert(decreases_to!(*schema => *schema.subschemas->0.then_schema->0));
                    }
                    match verify_schema(s, definitions, path_with(span, "then")) {
                        Ok(()) => {},
                        Err(e) => out.combine(e),
                    }
                },
                None => {},
            }
            match &sub.else_schema {
                Some(s) => {
                    proof {
                        assert(decreases_to!(*schema => *schema.subschemas->0.else_schema->0));
                    }
                    match verify_schema(s, definitions, path_with(span, "else")) {
                        Ok(()) => {},
                        Err(e) => out.combine(e),
                    }
                },
                None => {},
            }
            proof {
                assert(out@ =~= c_obj_prefix_a(definitions@, *schema, span@));
            }
            out
        },
        None => out,
    }
}

/// Check the object fields of one node.
#[verifier::loop_isolation(false)]
#[verifier::rlimit(60)]
fn check_object_part(
    schema: &SchemaObject,
    definitions: &Vec<(String, Schema)>,
    span: &Keys,
) -> (r: Errors)
    ensures
        r@ == c_obj_prefix_b(definitions@, *schema, span@),
    decreases *schema, 7int, 1int,
{
    let ghost path = span@;
    let mut out = Errors::new();
    match &schema.object {
        Some(ov) => {
            let npat = ov.pattern_properties.len();
            let ghost pats = ov.pattern_properties@;
            let mut t: usize = 0;
            while t < npat
                invariant
                    0 <= t <= npat,
                    out@ == c_patkeys(pats, path, t as int),
                decreases npat - t,
            {
                if !regex_compiles(&ov.pattern_properties[t].0) {
                    let mut p = path_with(span, "patternProperties");
                    p.push(ov.pattern_properties[t].0.clone());
                    out.push(
                        Error::new(
                            None,
                            Some(p),
                            ErrorValue::InvalidSchema(
                                InvalidSchema::InvalidPattern {
                                    pattern: ov.pattern_properties[t].0.clone(),
                                },
                            ),
                        ),
                    );
                }
                t += 1;
            }
            let nprop = ov.properties.len();
            let ghost props = ov.properties@;
            let mut j: usize = 0;
            while j < nprop
                invariant
                    0 <= j <= nprop,
                    out@ == c_patkeys(pats, path, pats.len() as int) + c_props(
                        definitions@,
                        props,
                        path,
                        j as int,
                    ),
                decreases nprop - j,
            {
                proof {
                    assert(decreases_to!(*schema =>
                        schema.object->0.properties@[j as int].1));
                }
                let mut p = path_with(span, "properties");
                p.push(ov.properties[j].0.clone());
                match verify_schema(&ov.properties[j].1, definitions, p) {
                    Ok(()) => {},
                    Err(e) => out.combine(e),
                }
                j += 1;
            }
            match &ov.additional_properties {
                Some(s) => {
                    proof {
                        assert(decreases_to!(*schema =>
                            *schema.object->0.additional_properties->0));
                    }
                    match verify_schema(s, definitions, path_with(span, "additionalProperties")) {
                        Ok(()) => {},
                        Err(e) => out.combine(e),
                    }
                },
                None => {},
            }
            proof {
                assert(out@ =~= c_obj_prefix_b(definitions@, *schema, path));
            }
            out
        },
        None => out,
    }
}

/// Check the string pattern of one node.
fn check_string_part(schema: &SchemaObject, span: &Keys) -> (r: Errors)
    ensures
        r@ == c_obj_prefix_c(*schema, span@),
{
    let mut out = Errors::new();
    match &schema.string {
        Some(sv) => {
            match &sv.pattern {
                Some(p) => {
                    if !regex_compiles(p) {
                        out.push(
                            Error::new(
                                None,
                                Some(path_with(span, "pattern")),
                                ErrorValue::InvalidSchema(
                                    InvalidSchema::InvalidPattern { pattern: p.clone() },
                                ),
                            ),
                        );
                    }
                },
                None => {},
            }
        },
        None => {},
    }
    out
}

/// Check the integrity of one node, located at `span`: a failing reference
/// is terminal for the node, otherwise the combinators, the object fields
/// and the string pattern are each checked and their failures accumulate.
#[verifier::loop_isolation(false)]
pub fn verify_schema_object(
    schema: &SchemaObject,
    definitions: &Vec<(String, Schema)>,
    span: Keys,
) -> (r: Result<(), Errors>)
    ensures
        match r {
            Ok(()) => c_obj(definitions@, *schema, span@).len() == 0,
            Err(e) => e@ == c_obj(definitions@, *schema, span@) && e@.len() > 0,
        },
    decreases *schema, 8int, 0int,
{
    match &schema.reference {
        Some(r) => {
            match local_definition(r) {
                Some(name) => {
                    match lookup_def(definitions, &name) {
                        Some(_) => {},
                        None => {
                            return Err(
                                Errors::one(
                                    Error::new(
                                        None,
                                        Some(span),
                                        ErrorValue::InvalidSchema(
                                            InvalidSchema::MissingDefinition(name),
                                        ),
                                    ),
                                ),
                            );
                        },
                    }
                },
                None => {
                    return Err(
                        Errors::one(
                            Error::new(
                                None,
                                Some(span),
                                ErrorValue::InvalidSchema(
                                    InvalidSchema::ExternalReference(r.clone()),
                                ),
                            ),
                        ),
                    );
                },
            }
        },
        None => {},
    }
    let mut out = check_subschemas_part(schema, definitions, &span);
    let obj_part = check_object_part(schema, definitions, &span);
    out.combine(obj_part);
    let str_part = check_string_part(schema, &span);
    out.combine(str_part);
    proof {
        assert(out@ =~= c_obj_rest(definitions@, *schema, span@));
    }
    if out.is_empty() {
        Ok(())
    } else {
        Err(out)
    }
}

/// The object-fields part of a node's integrity failures: pattern keys,
/// named properties, additional properties.
pub open spec fn c_obj_prefix_b(
    defs: Seq<(String, Schema)>,
    obj: SchemaObject,
    path: SegSeq,
) -> Seq<SpecError> {
    match obj.object {
        Some(ov) => c_patkeys(ov.pattern_properties@, path, ov.pattern_properties@.len() as int)
            + c_props(defs, ov.properties@, path, ov.properties@.len() as int) + (
        match ov.additional_properties {
            Some(s) => c_schema(defs, *s, path.push("additionalProperties"@)),
            None => Seq::empty(),
        }),
        None => Seq::empty(),
    }
}

/// The string part of a node's integrity failures: its pattern must
/// compile.
pub open spec fn c_obj_prefix_c(obj: SchemaObject, path: SegSeq) -> Seq<SpecError> {
    match obj.string {
        Some(sv) => match sv.pattern {
            Some(p) => if !pattern_compiles(p@) {
                seq![
                    ge(
                        None,
                        Some(path.push("pattern"@)),
                        SpecErrorValue::InvalidPattern(p@),
                    ),
                ]
            } else {
                Seq::empty()
            },
            None => Seq::empty(),
        },
        None => Seq::empty(),
    }
}

/// The combinator part of a node's integrity failures; a stepping stone for
/// the loop invariants above.
pub open spec fn c_obj_prefix_a(
    defs: Seq<(String, Schema)>,
    obj: SchemaObject,
    path: SegSeq,
) -> Seq<SpecError> {
    match obj.subschemas {
        Some(sub) => (match sub.all_of {
            Some(list) => c_list(defs, list@, path, "allOf"@, list@.len() as int),
            None => Seq::empty(),
        }) + (match sub.one_of {
            Some(list) => c_list(defs, list@, path, "oneOf"@, list@.len() as int),
            None => Seq::empty(),
        }) + (match sub.any_of {
            Some(list) => c_list(defs, list@, path, "anyOf"@, list@.len() as int),
            None => Seq::empty(),
        }) + (match sub.not {
            Some(s) => c_schema(defs, *s, path.push("not"@)),
            None => Seq::empty(),
        }) + (match sub.if_schema {
            Some(s) => c_schema(defs, *s, path.push("if"@)),
            None => Seq::empty(),
        }) + (match sub.then_schema {
            Some(s) => c_schema(defs, *s, path.push("then"@)),
            None => Seq::empty(),
        }) + (match sub.else_schema {
            Some(s) => c_schema(defs, *s, path.push("else"@)),
            None => Seq::empty(),
        }),
        None => Seq::empty(),
    }
}

/// Check the integrity of one combinator list, appending the failures.
#[verifier::loop_isolation(false)]
fn check_list(
    out: &mut Errors,
    list: &Vec<Schema>,
    definitions: &Vec<(String, Schema)>,
    span: &Keys,
    label: &str,
)
    ensures
        final(out)@ == old(out)@ + c_list(
            definitions@,
            list@,
            span@,
            label@,
            list@.len() as int,
        ),
    decreases list@, 5int, 0int,
{
    let ghost base = out@;
    let n = list.len();
    let mut i: usize = 0;
    while i < n
        invariant
            0 <= i <= n,
            out@ == base + c_list(definitions@, list@, span@, label@, i as int),
        decreases n - i,
    {
        proof {
            assert(decreases_to!(list@ => list@[i as int]));
        }
        let mut p = span.duplicate();
        p.push(String::from_str(label));
        p.push(usize_to_string(i));
        match verify_schema(&list[i], definitions, p) {
            Ok(()) => {},
            Err(e) => out.combine(e),
        }
        i += 1;
    }
}

/// Check the integrity of one node, boolean leaves passing outright.
pub fn verify_schema(schema: &Schema, definitions: &Vec<(String, Schema)>, span: Keys) -> (r:
    Result<(), Errors>)
    ensures
        match r {
            Ok(()) => c_schema(definitions@, *schema, span@).len() == 0,
            Err(e) => e@ == c_schema(definitions@, *schema, span@) && e@.len() > 0,
        },
    decreases *schema, 9int, 0int,
{
    match schema {
        Schema::Bool(_) => Ok(()),
        Schema::Object(o) => verify_schema_object(o, definitions, span),
    }
}

impl RootSchema {
    /// Check the whole document's integrity: every definition in order,
    /// then the root node; failures of independent parts accumulate and
    /// emptiness is the sole success signal.
    #[verifier::loop_isolation(false)]
    pub fn verify(&self) -> (r: Result<(), Errors>)
        ensures
            match r {
                Ok(()) => c_root(*self).len() == 0,
                Err(e) => e@ == c_root(*self) && e@.len() > 0,
            },
    {
        let mut out = Errors::new();
        let n = self.definitions.len();
        let ghost ds = self.definitions@;
        let mut i: usize = 0;
        while i < n
            invariant
                0 <= i <= n,
                out@ == c_defs(ds, i as int),
            decreases n - i,
        {
            proof {
                assert(decreases_to!(ds => ds[i as int].1));
            }
            let mut p = Keys::new();
            p.push(String::from_str("definitions"));
            p.push(self.definitions[i].0.clone());
            proof {
                assert(p@ =~= seq!["definitions"@, ds[i as int].0@]);
            }
            match verify_schema(&self.definitions[i].1, &self.definitions, p) {
                Ok(()) => {},
                Err(e) => out.combine(e),
            }
            i += 1;
        }
        let root_span = Keys::new();
        match verify_schema_object(&self.schema, &self.definitions, root_span) {
            Ok(()) => {},
            Err(e) => out.combine(e),
        }
        if out.is_empty() {
            Ok(())
        } else {
            Err(out)
        }
    }
}

} // verus!
