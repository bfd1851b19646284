//! Proved statements about the validator: success is exactly the
//! satisfaction of every applicable constraint, construct by construct; a
//! resolved reference validates as its target does and a missing one always
//! fails the same way; and the document check accepts every document free of
//! references and patterns.

use vstd::prelude::*;

use crate::errors::{SpecError, SpecErrorValue};
use crate::model::{
    contains_sat, count_empty, enum_ok, first_key_abort, key_covered, key_step_errors,
    key_string_spec, last_eq_upto, max_ok, meta_v, min_ok, multiple_ok, prim_errors,
    required_errors, type_ok, v_branches, v_elem, v_elems, v_entries, v_leaf, v_map_end,
    v_map_obj, v_node, v_obj, v_seq_obj, v_subschemas, value_kind, value_step_errors,
};
use crate::pattern::{pattern_compiles, pattern_matches};
use crate::schema::{
    local_definition_spec, lookup_def_spec, InstanceType, Schema, SchemaObject,
};
use crate::selfcheck::{c_defs, c_list, c_obj, c_obj_rest, c_props, c_root, c_schema};
use crate::span::SegSeq;
use crate::value::SpecValue;

verus! {

/// Each branch result is the judgment of its branch.
#[verifier::spinoff_prover]
#[verifier::rlimit(100)]
pub proof fn lemma_branches_index(
    defs: Seq<(String, Schema)>,
    list: Seq<Schema>,
    parent: Option<SegSeq>,
    cspan: Option<SegSeq>,
    vspan: Option<SegSeq>,
    v: SpecValue,
    i: int,
    fuel: nat,
)
    requires
        0 <= i <= list.len(),
    ensures
        v_branches(defs, list, parent, cspan, vspan, v, i, fuel).len() == i,
        forall|j: int|
            0 <= j < i ==> v_branches(defs, list, parent, cspan, vspan, v, i, fuel)[j] == v_node(
                defs,
                #[trigger] list[j],
                parent,
                cspan,
                vspan,
                v,
                fuel,
            ),
    decreases i,
{
    if i > 0 {
        lemma_branches_index(defs, list, parent, cspan, vspan, v, i - 1, fuel);
    }
}

/// No branch accepted exactly when every branch result is non-empty.
#[verifier::spinoff_prover]
#[verifier::rlimit(100)]
pub proof fn lemma_count_empty_zero(bs: Seq<Seq<SpecError>>)
    ensures
        (count_empty(bs) == 0) <==> (forall|j: int|
            0 <= j < bs.len() ==> (#[trigger] bs[j]).len() > 0),
    decreases bs.len(),
{
    if bs.len() > 0 {
        lemma_count_empty_zero(bs.drop_last());
        assert forall|j: int| 0 <= j < bs.len() - 1 implies bs.drop_last()[j] == bs[j] by {}
        if count_empty(bs) == 0 {
            assert forall|j: int| 0 <= j < bs.len() implies (#[trigger] bs[j]).len() > 0 by {
                if j < bs.len() - 1 {
                    assert(bs.drop_last()[j] == bs[j]);
                } else {
                    assert(bs[j] == bs.last());
                }
            }
        }
    }
}

/// Every branch accepted exactly when every branch result is empty.
#[verifier::spinoff_prover]
#[verifier::rlimit(100)]
pub proof fn lemma_count_empty_all(bs: Seq<Seq<SpecError>>)
    ensures
        (count_empty(bs) == bs.len()) <==> (forall|j: int|
            0 <= j < bs.len() ==> (#[trigger] bs[j]).len() == 0),
    decreases bs.len(),
{
    if bs.len() > 0 {
        lemma_count_empty_all(bs.drop_last());
        assert(count_empty(bs.drop_last()) <= bs.drop_last().len()) by {
            lemma_count_empty_le(bs.drop_last());
        }
        if count_empty(bs) == bs.len() {
            assert forall|j: int| 0 <= j < bs.len() implies (#[trigger] bs[j]).len() == 0 by {
                if j < bs.len() - 1 {
                    assert(bs.drop_last()[j] == bs[j]);
                } else {
                    assert(bs[j] == bs.last());
                }
            }
        } else {
            if forall|j: int| 0 <= j < bs.len() ==> (#[trigger] bs[j]).len() == 0 {
                assert(bs.last().len() == 0);
                assert forall|j: int|
                    0 <= j < bs.drop_last().len() implies (#[trigger] bs.drop_last()[j]).len()
                    == 0 by {
                    assert(bs.drop_last()[j] == bs[j]);
                }
            }
        }
    }
}

/// A count of accepting branches never exceeds the number of branches.
#[verifier::spinoff_prover]
#[verifier::rlimit(100)]
pub proof fn lemma_count_empty_le(bs: Seq<Seq<SpecError>>)
    ensures
        count_empty(bs) <= bs.len(),
    decreases bs.len(),
{
    if bs.len() > 0 {
        lemma_count_empty_le(bs.drop_last());
    }
}

/// A flattened branch list is empty exactly when every branch result is
/// empty.
#[verifier::spinoff_prover]
#[verifier::rlimit(100)]
pub proof fn lemma_flatten_empty(bs: Seq<Seq<SpecError>>)
    ensures
        (bs.flatten().len() == 0) <==> (forall|j: int|
            0 <= j < bs.len() ==> (#[trigger] bs[j]).len() == 0),
    decreases bs.len(),
{
    if bs.len() == 0 {
        assert(bs.flatten() =~= Seq::<SpecError>::empty());
    } else {
        lemma_flatten_empty(bs.drop_last());
        bs.drop_last().lemma_flatten_push(bs.last());
        assert(bs.drop_last().push(bs.last()) =~= bs);
        assert(bs.flatten() =~= bs.drop_last().flatten() + bs.last());
        if bs.flatten().len() == 0 {
            assert forall|j: int| 0 <= j < bs.len() implies (#[trigger] bs[j]).len() == 0 by {
                if j < bs.len() - 1 {
                    assert(bs.drop_last()[j] == bs[j]);
                } else {
                    assert(bs[j] == bs.last());
                }
            }
        } else {
            if forall|j: int| 0 <= j < bs.len() ==> (#[trigger] bs[j]).len() == 0 {
                assert(bs.last() == bs[bs.len() - 1]);
                assert forall|j: int|
                    0 <= j < bs.drop_last().len() implies (#[trigger] bs.drop_last()[j]).len()
                    == 0 by {
                    assert(bs.drop_last()[j] == bs[j]);
                }
            }
        }
    }
}

/// What it means for the combinators of a node to hold of a value: every
/// `allOf` branch accepts, some `anyOf` branch accepts, exactly one `oneOf`
/// branch accepts, the consequence of a conditional pair accepts, and a
/// negated schema rejects.
pub open spec fn subschemas_hold(
    defs: Seq<(String, Schema)>,
    obj: SchemaObject,
    parent: Option<SegSeq>,
    cspan: Option<SegSeq>,
    vspan: Option<SegSeq>,
    v: SpecValue,
    fuel: nat,
) -> bool {
    match obj.subschemas {
        None => true,
        Some(sub) => (match sub.all_of {
            Some(list) => forall|j: int|
                0 <= j < list@.len() ==> v_node(
                    defs,
                    #[trigger] list@[j],
                    parent,
                    cspan,
                    vspan,
                    v,
                    fuel,
                ).len() == 0,
            None => true,
        }) && (match sub.any_of {
            Some(list) => exists|j: int|
                0 <= j < list@.len() && v_node(
                    defs,
                    #[trigger] list@[j],
                    parent,
                    cspan,
                    vspan,
                    v,
                    fuel,
                ).len() == 0,
            None => true,
        }) && (match sub.one_of {
            Some(list) => count_empty(
                v_branches(defs, list@, parent, cspan, vspan, v, list@.len() as int, fuel),
            ) == 1,
            None => true,
        }) && (match (sub.if_schema, sub.then_schema) {
            (Some(cond), Some(then)) => if v_node(
                defs,
                *cond,
                parent,
                cspan,
                vspan,
                v,
                fuel,
            ).len() == 0 {
                v_node(defs, *then, parent, cspan, vspan, v, fuel).len() == 0
            } else {
                match sub.else_schema {
                    Some(els) => v_node(defs, *els, parent, cspan, vspan, v, fuel).len() == 0,
                    None => true,
                }
            },
            _ => true,
        }) && (match sub.not {
            Some(not) => v_node(defs, *not, parent, cspan, vspan, v, fuel).len() > 0,
            None => true,
        })
    }
}

/// The combinator judgment of a node is empty exactly when its combinators
/// hold of the value.
#[verifier::spinoff_prover]
#[verifier::rlimit(100)]
pub proof fn lemma_subschemas_iff(
    defs: Seq<(String, Schema)>,
    obj: SchemaObject,
    parent: Option<SegSeq>,
    cspan: Option<SegSeq>,
    vspan: Option<SegSeq>,
    v: SpecValue,
    fuel: nat,
)
    ensures
        (v_subschemas(defs, obj, parent, cspan, vspan, v, fuel).len() == 0) <==> subschemas_hold(
            defs,
            obj,
            parent,
            cspan,
            vspan,
            v,
            fuel,
        ),
{
    match obj.subschemas {
        None => {},
        Some(sub) => {
            lemma_all_part_iff(defs, sub, parent, cspan, vspan, v, fuel);
            lemma_any_part_iff(defs, sub, meta_v(obj), parent, cspan, vspan, v, fuel);
        },
    }
}

/// The `allOf` part is empty exactly when every branch accepts.
#[verifier::spinoff_prover]
#[verifier::rlimit(100)]
pub proof fn lemma_all_part_iff(
    defs: Seq<(String, Schema)>,
    sub: crate::schema::SubschemaValidation,
    parent: Option<SegSeq>,
    cspan: Option<SegSeq>,
    vspan: Option<SegSeq>,
    v: SpecValue,
    fuel: nat,
)
    ensures
        (crate::model::subs_all(defs, sub, parent, cspan, vspan, v, fuel).len() == 0) <==> (
        match sub.all_of {
            Some(list) => forall|j: int|
                0 <= j < list@.len() ==> v_node(
                    defs,
                    #[trigger] list@[j],
                    parent,
                    cspan,
                    vspan,
                    v,
                    fuel,
                ).len() == 0,
            None => true,
        }),
{
    match sub.all_of {
        Some(list) => {
            let bs = v_branches(defs, list@, parent, cspan, vspan, v, list@.len() as int, fuel);
            lemma_branches_index(defs, list@, parent, cspan, vspan, v, list@.len() as int, fuel);
            lemma_flatten_empty(bs);
            assert(crate::model::subs_all(defs, sub, parent, cspan, vspan, v, fuel)
                == bs.flatten());
            assert forall|j: int| 0 <= j < list@.len() implies ((#[trigger] bs[j]).len() == 0
                <==> v_node(defs, list@[j], parent, cspan, vspan, v, fuel).len() == 0) by {
                assert(bs[j] == v_node(defs, list@[j], parent, cspan, vspan, v, fuel));
            }
            if bs.flatten().len() == 0 {
                assert forall|j: int| 0 <= j < list@.len() implies v_node(
                    defs,
                    #[trigger] list@[j],
                    parent,
                    cspan,
                    vspan,
                    v,
                    fuel,
                ).len() == 0 by {
                    assert(bs[j].len() == 0);
                }
            } else {
                assert(!(forall|j: int| 0 <= j < bs.len() ==> (#[trigger] bs[j]).len() == 0));
                let w = choose|j: int| 0 <= j < bs.len() && (#[trigger] bs[j]).len() > 0;
                assert(v_node(defs, list@[w], parent, cspan, vspan, v, fuel).len() > 0);
            }
        },
        None => {},
    }
}

/// The `anyOf` part is empty exactly when some branch accepts.
#[verifier::spinoff_prover]
#[verifier::rlimit(100)]
pub proof fn lemma_any_part_iff(
    defs: Seq<(String, Schema)>,
    sub: crate::schema::SubschemaValidation,
    meta: Option<crate::schema::SpecMeta>,
    parent: Option<SegSeq>,
    cspan: Option<SegSeq>,
    vspan: Option<SegSeq>,
    v: SpecValue,
    fuel: nat,
)
    ensures
        (crate::model::subs_any(defs, sub, meta, parent, cspan, vspan, v, fuel).len() == 0) <==> (
        match sub.any_of {
            Some(list) => exists|j: int|
                0 <= j < list@.len() && v_node(
                    defs,
                    #[trigger] list@[j],
                    parent,
                    cspan,
                    vspan,
                    v,
                    fuel,
                ).len() == 0,
            None => true,
        }),
{
    match sub.any_of {
        Some(list) => {
            let bs = v_branches(defs, list@, parent, cspan, vspan, v, list@.len() as int, fuel);
            lemma_branches_index(defs, list@, parent, cspan, vspan, v, list@.len() as int, fuel);
            lemma_count_empty_zero(bs);
            if count_empty(bs) == 0 {
                assert(crate::model::subs_any(defs, sub, meta, parent, cspan, vspan, v, fuel).len()
                    == 1);
                assert forall|j: int|
                    0 <= j < list@.len() implies v_node(
                    defs,
                    #[trigger] list@[j],
                    parent,
                    cspan,
                    vspan,
                    v,
                    fuel,
                ).len() > 0 by {
                    assert(bs[j].len() > 0);
                }
            } else {
                assert(crate::model::subs_any(defs, sub, meta, parent, cspan, vspan, v, fuel).len()
                    == 0);
                assert(!(forall|j: int| 0 <= j < bs.len() ==> (#[trigger] bs[j]).len() > 0));
                let w = choose|j: int| 0 <= j < bs.len() && !((#[trigger] bs[j]).len() > 0);
                assert(v_node(defs, list@[w], parent, cspan, vspan, v, fuel).len() == 0);
            }
        },
        None => {},
    }
}

/// What it means for a primitive value to satisfy a node's leaf checks:
/// the declared type admits it, the enumeration lists it, and its numeric
/// or string constraints hold.
pub open spec fn prim_holds(obj: SchemaObject, v: SpecValue) -> bool {
    type_ok(obj, value_kind(v)) && enum_ok(obj, v) && (match v {
        SpecValue::Int(i) => match obj.number {
            Some(n) => multiple_ok(n.multiple_of, i) && min_ok(n.minimum, n.exclusive_minimum, i)
                && max_ok(n.maximum, n.exclusive_maximum, i),
            None => true,
        },
        SpecValue::Str(s) => match obj.string {
            Some(sv) => (match sv.pattern {
                Some(p) => pattern_compiles(p@) && pattern_matches(p@, s),
                None => true,
            }) && (match sv.max_length {
                Some(m) => s.len() <= m,
                None => true,
            }) && (match sv.min_length {
                Some(m) => s.len() >= m,
                None => true,
            }),
            None => true,
        },
        _ => true,
    })
}

/// The direct judgment of a primitive value is empty exactly when its
/// constraints hold.
#[verifier::spinoff_prover]
#[verifier::rlimit(100)]
pub proof fn lemma_prim_iff(obj: SchemaObject, span: Option<SegSeq>, v: SpecValue)
    ensures
        (prim_errors(obj, span, v).len() == 0) <==> prim_holds(obj, v),
{
}

/// A resolved local reference validates exactly as its target does, with
/// the value's own location taking the place of the step location; nothing
/// else of the referring node is consulted.
#[verifier::spinoff_prover]
#[verifier::rlimit(100)]
pub proof fn lemma_reference_resolves(
    defs: Seq<(String, Schema)>,
    obj: SchemaObject,
    parent: Option<SegSeq>,
    cspan: Option<SegSeq>,
    vspan: Option<SegSeq>,
    v: SpecValue,
    fuel: nat,
    r: String,
    name: Seq<char>,
    target: Schema,
)
    requires
        obj.reference == Some(r),
        local_definition_spec(r@) == Some(name),
        lookup_def_spec(defs, name) == Some(target),
        fuel > 0,
    ensures
        v_obj(defs, obj, parent, cspan, vspan, v, fuel) == v_node(
            defs,
            target,
            parent,
            vspan,
            vspan,
            v,
            (fuel - 1) as nat,
        ),
{
}

/// A local reference to a missing name always yields exactly one failure,
/// a missing-definition failure naming it, whatever the data is.
#[verifier::spinoff_prover]
#[verifier::rlimit(100)]
pub proof fn lemma_reference_missing(
    defs: Seq<(String, Schema)>,
    obj: SchemaObject,
    parent: Option<SegSeq>,
    cspan: Option<SegSeq>,
    vspan: Option<SegSeq>,
    v: SpecValue,
    fuel: nat,
    r: String,
    name: Seq<char>,
)
    requires
        obj.reference == Some(r),
        local_definition_spec(r@) == Some(name),
        lookup_def_spec(defs, name) is None,
    ensures
        v_obj(defs, obj, parent, cspan, vspan, v, fuel).len() == 1,
        v_obj(defs, obj, parent, cspan, vspan, v, fuel)[0].value == SpecErrorValue::MissingDefinition(
            name,
        ),
{
}

/// A document part is plain when it holds no reference, no string pattern
/// and no pattern properties, through every child the document check
/// visits.
pub open spec fn plain_obj(obj: SchemaObject) -> bool
    decreases obj, 8int, 0int,
{
    obj.reference is None && (match obj.string {
        Some(sv) => sv.pattern is None,
        None => true,
    }) && (match obj.object {
        Some(ov) => ov.pattern_properties@.len() == 0 && plain_props(
            ov.properties@,
            ov.properties@.len() as int,
        ) && (match ov.additional_properties {
            Some(s) => plain_schema(*s),
            None => true,
        }),
        None => true,
    }) && (match obj.subschemas {
        Some(sub) => (match sub.all_of {
            Some(list) => plain_list(list@, list@.len() as int),
            None => true,
        }) && (match sub.one_of {
            Some(list) => plain_list(list@, list@.len() as int),
            None => true,
        }) && (match sub.any_of {
            Some(list) => plain_list(list@, list@.len() as int),
            None => true,
        }) && (match sub.not {
            Some(s) => plain_schema(*s),
            None => true,
        }) && (match sub.if_schema {
            Some(s) => plain_schema(*s),
            None => true,
        }) && (match sub.then_schema {
            Some(s) => plain_schema(*s),
            None => true,
        }) && (match sub.else_schema {
            Some(s) => plain_schema(*s),
            None => true,
        }),
        None => true,
    })
}

/// A node is plain when its object part is.
pub open spec fn plain_schema(s: Schema) -> bool
    decreases s, 9int, 0int,
{
    match s {
        Schema::Bool(_) => true,
        Schema::Object(o) => plain_obj(o),
    }
}

/// The first `i` schemas of a list are plain.
pub open spec fn plain_list(list: Seq<Schema>, i: int) -> bool
    decreases list, 5int, i,
{
    if i <= 0 || i > list.len() {
        true
    } else {
        plain_list(list, i - 1) && plain_schema(list[i - 1])
    }
}

/// The first `i` named properties are plain.
pub open spec fn plain_props(props: Seq<(String, Schema)>, i: int) -> bool
    decreases props, 5int, i,
{
    if i <= 0 || i > props.len() {
        true
    } else {
        plain_props(props, i - 1) && plain_schema(props[i - 1].1)
    }
}

/// The document check finds nothing in a plain node, wherever it stands.
#[verifier::spinoff_prover]
#[verifier::rlimit(100)]
pub proof fn lemma_plain_obj(defs: Seq<(String, Schema)>, obj: SchemaObject, path: SegSeq)
    requires
        plain_obj(obj),
    ensures
        c_obj(defs, obj, path).len() == 0,
    decreases obj, 8int, 1int,
{
    lemma_plain_obj_rest(defs, obj, path);
}

/// The document check finds nothing in the combinators, object fields and
/// string pattern of a plain node.
#[verifier::spinoff_prover]
#[verifier::rlimit(100)]
pub proof fn lemma_plain_obj_rest(defs: Seq<(String, Schema)>, obj: SchemaObject, path: SegSeq)
    requires
        plain_obj(obj),
    ensures
        c_obj_rest(defs, obj, path).len() == 0,
    decreases obj, 7int, 1int,
{
    match obj.subschemas {
        Some(sub) => {
            match sub.all_of {
                Some(list) => {
                    lemma_plain_list(defs, list@, path, "allOf"@, list@.len() as int);
                },
                None => {},
            }
            match sub.one_of {
                Some(list) => {
                    lemma_plain_list(defs, list@, path, "oneOf"@, list@.len() as int);
                },
                None => {},
            }
            match sub.any_of {
                Some(list) => {
                    lemma_plain_list(defs, list@, path, "anyOf"@, list@.len() as int);
                },
                None => {},
            }
            match sub.not {
                Some(s) => {
                    lemma_plain_schema(defs, *s, path.push("not"@));
                },
                None => {},
            }
            match sub.if_schema {
                Some(s) => {
                    lemma_plain_schema(defs, *s, path.push("if"@));
                },
                None => {},
            }
            match sub.then_schema {
                Some(s) => {
                    lemma_plain_schema(defs, *s, path.push("then"@));
                },
                None => {},
            }
            match sub.else_schema {
                Some(s) => {
                    lemma_plain_schema(defs, *s, path.push("else"@));
                },
                None => {},
            }
        },
        None => {},
    }
    match obj.object {
        Some(ov) => {
            lemma_plain_props(defs, ov.properties@, path, ov.properties@.len() as int);
            match ov.additional_properties {
                Some(s) => {
                    lemma_plain_schema(defs, *s, path.push("additionalProperties"@));
                },
                None => {},
            }
        },
        None => {},
    }
}

/// The document check finds nothing in a plain node.
#[verifier::spinoff_prover]
#[verifier::rlimit(100)]
pub proof fn lemma_plain_schema(defs: Seq<(String, Schema)>, s: Schema, path: SegSeq)
    requires
        plain_schema(s),
    ensures
        c_schema(defs, s, path).len() == 0,
    decreases s, 9int, 1int,
{
    match s {
        Schema::Bool(_) => {},
        Schema::Object(o) => {
            lemma_plain_obj(defs, o, path);
        },
    }
}

/// The document check finds nothing among the first `i` branches of a
/// plain list.
#[verifier::spinoff_prover]
#[verifier::rlimit(100)]
pub proof fn lemma_plain_list(
    defs: Seq<(String, Schema)>,
    list: Seq<Schema>,
    path: SegSeq,
    label: Seq<char>,
    i: int,
)
    requires
        plain_list(list, i),
    ensures
        c_list(defs, list, path, label, i).len() == 0,
    decreases list, 5int, i,
{
    if 0 < i <= list.len() {
        lemma_plain_list(defs, list, path, label, i - 1);
        lemma_plain_schema(defs, list[i - 1], path.push(label).push(
            crate::strings::dec_digits((i - 1) as nat),
        ));
    }
}

/// The document check finds nothing among the first `i` properties of a
/// plain property list.
#[verifier::spinoff_prover]
#[verifier::rlimit(100)]
pub proof fn lemma_plain_props(
    defs: Seq<(String, Schema)>,
    props: Seq<(String, Schema)>,
    path: SegSeq,
    i: int,
)
    requires
        plain_props(props, i),
    ensures
        c_props(defs, props, path, i).len() == 0,
    decreases props, 5int, i,
{
    if 0 < i <= props.len() {
        lemma_plain_props(defs, props, path, i - 1);
        lemma_plain_schema(
            defs,
            props[i - 1].1,
            path.push("properties"@).push(props[i - 1].0@),
        );
    }
}

/// The first `i` definitions of a document are plain.
pub open spec fn plain_defs(defs: Seq<(String, Schema)>, i: int) -> bool
    decreases i,
{
    if i <= 0 || i > defs.len() {
        true
    } else {
        plain_defs(defs, i - 1) && plain_schema(defs[i - 1].1)
    }
}

/// The document check accepts every document whose definitions and root
/// are plain — no references and no patterns — however deeply it nests.
#[verifier::spinoff_prover]
#[verifier::rlimit(100)]
pub proof fn lemma_selfcheck_plain(root: crate::schema::RootSchema)
    requires
        plain_defs(root.definitions@, root.definitions@.len() as int),
        plain_obj(root.schema),
    ensures
        c_root(root).len() == 0,
{
    lemma_plain_defs(root.definitions@, root.definitions@.len() as int);
    lemma_plain_obj(root.definitions@, root.schema, Seq::empty());
}

/// The document check finds nothing among the first `i` plain definitions.
#[verifier::spinoff_prover]
#[verifier::rlimit(100)]
pub proof fn lemma_plain_defs(defs: Seq<(String, Schema)>, i: int)
    requires
        plain_defs(defs, i),
    ensures
        c_defs(defs, i).len() == 0,
    decreases i,
{
    if 0 < i <= defs.len() {
        lemma_plain_defs(defs, i - 1);
        lemma_plain_schema(defs, defs[i - 1].1, seq!["definitions"@, defs[i - 1].0@]);
    }
}

/// A non-reference object node accepts exactly when its combinators hold
/// and, if it declares a type, the leaf judgment accepts.
#[verifier::spinoff_prover]
#[verifier::rlimit(100)]
pub proof fn lemma_node_iff(
    defs: Seq<(String, Schema)>,
    obj: SchemaObject,
    parent: Option<SegSeq>,
    cspan: Option<SegSeq>,
    vspan: Option<SegSeq>,
    v: SpecValue,
    fuel: nat,
)
    requires
        obj.reference is None,
    ensures
        (v_obj(defs, obj, parent, cspan, vspan, v, fuel).len() == 0) <==> (subschemas_hold(
            defs,
            obj,
            parent,
            cspan,
            vspan,
            v,
            fuel,
        ) && (obj.instance_type is None || v_leaf(defs, obj, parent, vspan, v, fuel).len() == 0)),
{
    lemma_subschemas_iff(defs, obj, parent, cspan, vspan, v, fuel);
}

/// The judgments of the first `i` elements are all empty exactly when each
/// element's judgment is.
#[verifier::spinoff_prover]
#[verifier::rlimit(100)]
pub proof fn lemma_elems_iff(
    defs: Seq<(String, Schema)>,
    obj: SchemaObject,
    parent2: Option<SegSeq>,
    items: Seq<SpecValue>,
    i: int,
    fuel: nat,
)
    requires
        0 <= i <= items.len(),
    ensures
        (v_elems(defs, obj, parent2, items, i, fuel).len() == 0) <==> (forall|j: int|
            0 <= j < i ==> (#[trigger] v_elem(defs, obj, parent2, items, j, fuel)).len() == 0),
    decreases i,
{
    if i > 0 {
        lemma_elems_iff(defs, obj, parent2, items, i - 1, fuel);
        assert(v_elems(defs, obj, parent2, items, i, fuel) == v_elems(
            defs,
            obj,
            parent2,
            items,
            i - 1,
            fuel,
        ) + v_elem(defs, obj, parent2, items, i - 1, fuel));
        if v_elems(defs, obj, parent2, items, i, fuel).len() == 0 {
            assert forall|j: int|
                0 <= j < i implies (#[trigger] v_elem(defs, obj, parent2, items, j, fuel)).len()
                == 0 by {
                if j < i - 1 {
                    assert(v_elems(defs, obj, parent2, items, i - 1, fuel).len() == 0);
                }
            }
        } else {
            if forall|j: int|
                0 <= j < i ==> (#[trigger] v_elem(defs, obj, parent2, items, j, fuel)).len()
                == 0 {
                assert forall|j: int|
                    0 <= j < i - 1 implies (#[trigger] v_elem(
                    defs,
                    obj,
                    parent2,
                    items,
                    j,
                    fuel,
                )).len() == 0 by {}
                assert(v_elems(defs, obj, parent2, items, i - 1, fuel).len() == 0);
                assert(v_elem(defs, obj, parent2, items, i - 1, fuel).len() == 0);
            }
        }
    }
}

/// What it means for a sequence's end obligations to hold: containment is
/// witnessed by some element and the length lies within the declared
/// bounds.
pub open spec fn seq_end_holds(
    defs: Seq<(String, Schema)>,
    obj: SchemaObject,
    parent2: Option<SegSeq>,
    items: Seq<SpecValue>,
    fuel: nat,
) -> bool {
    match obj.array {
        None => true,
        Some(arr) => (arr.contains is None || contains_sat(
            defs,
            obj,
            parent2,
            items,
            items.len() as int,
            fuel,
        )) && (match arr.min_items {
            Some(min) => items.len() >= min,
            None => true,
        }) && (match arr.max_items {
            Some(max) => items.len() <= max,
            None => true,
        }),
    }
}

/// A sequence is accepted by an object node exactly when the node admits
/// sequences, every element's judgment accepts, and the end obligations
/// hold.
#[verifier::spinoff_prover]
#[verifier::rlimit(100)]
pub proof fn lemma_seq_iff(
    defs: Seq<(String, Schema)>,
    obj: SchemaObject,
    lcombined: Option<SegSeq>,
    items: Seq<SpecValue>,
    fuel: nat,
)
    ensures
        (v_seq_obj(defs, obj, lcombined, items, fuel).len() == 0) <==> (type_ok(
            obj,
            InstanceType::Array,
        ) && (forall|j: int|
            0 <= j < items.len() ==> (#[trigger] v_elem(
                defs,
                obj,
                lcombined,
                items,
                j,
                fuel,
            )).len() == 0) && seq_end_holds(defs, obj, lcombined, items, fuel)),
{
    if type_ok(obj, InstanceType::Array) {
        lemma_elems_iff(defs, obj, lcombined, items, items.len() as int, fuel);
    }
}

/// An element's judgment accepts exactly when the schema for its position
/// accepts it and, under a uniqueness constraint, no earlier element equals
/// it.
#[verifier::spinoff_prover]
#[verifier::rlimit(100)]
pub proof fn lemma_elem_iff(
    defs: Seq<(String, Schema)>,
    obj: SchemaObject,
    parent2: Option<SegSeq>,
    items: Seq<SpecValue>,
    i: int,
    fuel: nat,
)
    requires
        0 <= i < items.len(),
    ensures
        (v_elem(defs, obj, parent2, items, i, fuel).len() == 0) <==> (match obj.array {
            None => true,
            Some(arr) => (match arr.items {
                Some(crate::schema::OneOrMany::One(s)) => v_node(
                    defs,
                    *s,
                    parent2,
                    None,
                    Some(seq![crate::strings::dec_digits(i as nat)]),
                    items[i],
                    fuel,
                ).len() == 0,
                Some(crate::schema::OneOrMany::Many(list)) => if i < list@.len() {
                    v_node(
                        defs,
                        list@[i],
                        parent2,
                        None,
                        Some(seq![crate::strings::dec_digits(i as nat)]),
                        items[i],
                        fuel,
                    ).len() == 0
                } else {
                    match arr.additional_items {
                        Some(a) => v_node(
                            defs,
                            *a,
                            parent2,
                            None,
                            Some(seq![crate::strings::dec_digits(i as nat)]),
                            items[i],
                            fuel,
                        ).len() == 0,
                        None => true,
                    }
                },
                None => true,
            }) && (arr.unique_items == Some(true) ==> last_eq_upto(items, i, i) is None),
        }),
{
}

/// The judgments of the first `i` fully processed entries are all empty
/// exactly when each entry's value step is.
#[verifier::spinoff_prover]
#[verifier::rlimit(100)]
pub proof fn lemma_entries_iff(
    defs: Seq<(String, Schema)>,
    obj: SchemaObject,
    parent2: Option<SegSeq>,
    entries: Seq<(SpecValue, SpecValue)>,
    i: int,
    fuel: nat,
)
    requires
        0 <= i <= entries.len(),
    ensures
        (v_entries(defs, obj, parent2, entries, i, fuel).len() == 0) <==> (forall|j: int|
            0 <= j < i ==> value_step_errors(
                defs,
                obj,
                parent2,
                match key_string_spec((#[trigger] entries[j]).0) {
                    Some(ks) => ks,
                    None => Seq::empty(),
                },
                entries[j].1,
                fuel,
            ).len() == 0),
    decreases i,
{
    if i > 0 {
        lemma_entries_iff(defs, obj, parent2, entries, i - 1, fuel);
    }
}

/// The required-name failures are empty exactly when every required name
/// is covered by some entry.
#[verifier::spinoff_prover]
#[verifier::rlimit(100)]
pub proof fn lemma_required_iff(
    obj: SchemaObject,
    required: Seq<String>,
    entries: Seq<(SpecValue, SpecValue)>,
)
    ensures
        (required_errors(obj, required, entries).len() == 0) <==> (forall|j: int|
            0 <= j < required.len() ==> key_covered(entries, (#[trigger] required[j])@)),
    decreases required.len(),
{
    if required.len() > 0 {
        lemma_required_iff(obj, required.drop_last(), entries);
        if required_errors(obj, required, entries).len() == 0 {
            assert forall|j: int|
                0 <= j < required.len() implies key_covered(entries, (#[trigger] required[j])@) by {
                if j < required.len() - 1 {
                    assert(required.drop_last()[j] == required[j]);
                } else {
                    assert(required[j] == required.last());
                }
            }
        } else {
            if forall|j: int| 0 <= j < required.len() ==> key_covered(
                entries,
                (#[trigger] required[j])@,
            ) {
                assert(key_covered(entries, required.last()@));
                assert forall|j: int|
                    0 <= j < required.drop_last().len() implies key_covered(
                    entries,
                    (#[trigger] required.drop_last()[j])@,
                ) by {
                    assert(required.drop_last()[j] == required[j]);
                }
            }
        }
    }
}

/// No key step fails among the first `i` entries exactly when no abort is
/// found at or before them.
#[verifier::spinoff_prover]
#[verifier::rlimit(100)]
pub proof fn lemma_keys_iff(
    defs: Seq<(String, Schema)>,
    obj: SchemaObject,
    parent2: Option<SegSeq>,
    entries: Seq<(SpecValue, SpecValue)>,
    i: int,
    fuel: nat,
)
    requires
        0 <= i,
    ensures
        (first_key_abort(defs, obj, parent2, entries, i, fuel) is None) <==> (forall|j: int|
            i <= j < entries.len() ==> key_step_errors(
                defs,
                obj,
                parent2,
                (#[trigger] entries[j]).0,
                fuel,
            ).len() == 0),
    decreases entries.len() - i,
{
    if i < entries.len() {
        lemma_keys_iff(defs, obj, parent2, entries, i + 1, fuel);
    }
}

/// What it means for a map's end obligations to hold: the number of
/// entries lies within the declared bounds and every required name is
/// covered.
pub open spec fn map_end_holds(
    obj: SchemaObject,
    entries: Seq<(SpecValue, SpecValue)>,
) -> bool {
    match obj.object {
        None => true,
        Some(ov) => (match ov.max_properties {
            Some(max) => entries.len() <= max,
            None => true,
        }) && (match ov.min_properties {
            Some(min) => entries.len() >= min,
            None => true,
        }) && (forall|j: int|
            0 <= j < ov.required@.len() ==> key_covered(entries, (#[trigger] ov.required@[j])@)),
    }
}

/// A found key abort names an entry whose key step fails, with every key
/// step before it passing.
#[verifier::spinoff_prover]
#[verifier::rlimit(100)]
pub proof fn lemma_first_key_abort_found(
    defs: Seq<(String, Schema)>,
    obj: SchemaObject,
    parent2: Option<SegSeq>,
    entries: Seq<(SpecValue, SpecValue)>,
    i: int,
    fuel: nat,
)
    requires
        0 <= i,
    ensures
        match first_key_abort(defs, obj, parent2, entries, i, fuel) {
            Some(k) => i <= k < entries.len() && key_step_errors(
                defs,
                obj,
                parent2,
                entries[k].0,
                fuel,
            ).len() > 0,
            None => true,
        },
    decreases entries.len() - i,
{
    if i < entries.len() {
        lemma_first_key_abort_found(defs, obj, parent2, entries, i + 1, fuel);
    }
}

/// A map is accepted by an object node exactly when the node admits maps,
/// every key step passes, every value step accepts, and the end
/// obligations hold.
#[verifier::spinoff_prover]
#[verifier::rlimit(100)]
pub proof fn lemma_map_iff(
    defs: Seq<(String, Schema)>,
    obj: SchemaObject,
    lcombined: Option<SegSeq>,
    entries: Seq<(SpecValue, SpecValue)>,
    fuel: nat,
)
    ensures
        (v_map_obj(defs, obj, lcombined, entries, fuel).len() == 0) <==> (type_ok(
            obj,
            InstanceType::Object,
        ) && (forall|j: int|
            0 <= j < entries.len() ==> key_step_errors(
                defs,
                obj,
                lcombined,
                (#[trigger] entries[j]).0,
                fuel,
            ).len() == 0) && (forall|j: int|
            0 <= j < entries.len() ==> value_step_errors(
                defs,
                obj,
                lcombined,
                match key_string_spec((#[trigger] entries[j]).0) {
                    Some(ks) => ks,
                    None => Seq::empty(),
                },
                entries[j].1,
                fuel,
            ).len() == 0) && map_end_holds(obj, entries)),
{
    if type_ok(obj, InstanceType::Object) {
        lemma_keys_iff(defs, obj, lcombined, entries, 0, fuel);
        match first_key_abort(defs, obj, lcombined, entries, 0, fuel) {
            Some(k) => {
                lemma_first_key_abort_found(defs, obj, lcombined, entries, 0, fuel);
                assert(v_map_obj(defs, obj, lcombined, entries, fuel) == v_entries(
                    defs,
                    obj,
                    lcombined,
                    entries,
                    k,
                    fuel,
                ) + key_step_errors(defs, obj, lcombined, entries[k].0, fuel));
                assert(v_map_obj(defs, obj, lcombined, entries, fuel).len() > 0);
                assert(key_step_errors(defs, obj, lcombined, entries[k].0, fuel).len() > 0);
            },
            None => {
                lemma_entries_iff(defs, obj, lcombined, entries, entries.len() as int, fuel);
                assert(v_map_obj(defs, obj, lcombined, entries, fuel) == v_entries(
                    defs,
                    obj,
                    lcombined,
                    entries,
                    entries.len() as int,
                    fuel,
                ) + v_map_end(obj, entries));
                lemma_map_end_iff(obj, entries);
            },
        }
    }
}

/// The end-of-map failures are empty exactly when the end obligations
/// hold.
#[verifier::spinoff_prover]
#[verifier::rlimit(100)]
pub proof fn lemma_map_end_iff(obj: SchemaObject, entries: Seq<(SpecValue, SpecValue)>)
    ensures
        (v_map_end(obj, entries).len() == 0) <==> map_end_holds(obj, entries),
{
    match obj.object {
        None => {},
        Some(ov) => {
            lemma_required_iff(obj, ov.required@, entries);
        },
    }
}


/// Soundness and completeness at the document root: validation succeeds
/// exactly when every applicable constraint of the root node holds of the
/// value — its combinators hold and, if it declares a type, the value
/// passes its leaf checks. Together with the per-construct statements
/// above, success is everywhere the satisfaction of every applicable
/// constraint.
pub proof fn lemma_root_iff(
    root: crate::schema::RootSchema,
    v: SpecValue,
    parent: Option<SegSeq>,
    vspan: Option<SegSeq>,
    fuel: nat,
)
    requires
        root.schema.reference is None,
    ensures
        (crate::model::v_root(root, v, parent, vspan, fuel).len() == 0) <==> (subschemas_hold(
            root.definitions@,
            root.schema,
            parent,
            None,
            vspan,
            v,
            fuel,
        ) && (root.schema.instance_type is None || v_leaf(
            root.definitions@,
            root.schema,
            parent,
            vspan,
            v,
            fuel,
        ).len() == 0)),
{
    lemma_node_iff(root.definitions@, root.schema, parent, None, vspan, v, fuel);
}


/// Combination of failure collections is associative: only discovery order
/// matters, never grouping.
pub proof fn lemma_combination_associative(
    a: Seq<SpecError>,
    b: Seq<SpecError>,
    c: Seq<SpecError>,
)
    ensures
        (a + b) + c == a + (b + c),
{
    assert((a + b) + c =~= a + (b + c));
}


/// A primitive value violating only the type constraint draws exactly one
/// failure, of the type-mismatch kind.
pub proof fn lemma_single_violation_type(
    defs: Seq<(String, Schema)>,
    obj: SchemaObject,
    parent: Option<SegSeq>,
    cspan: Option<SegSeq>,
    vspan: Option<SegSeq>,
    v: SpecValue,
    fuel: nat,
)
    requires
        obj.reference is None,
        obj.subschemas is None,
        obj.instance_type is Some,
        !(v is Array),
        !(v is Object),
        !(v is Tagged),
        !type_ok(obj, value_kind(v)),
    ensures
        v_obj(defs, obj, parent, cspan, vspan, v, fuel).len() == 1,
        v_obj(defs, obj, parent, cspan, vspan, v, fuel)[0].value is InvalidType,
{
}

/// A number violating only the minimum draws exactly one failure, of the
/// below-minimum kind.
pub proof fn lemma_single_violation_minimum(
    defs: Seq<(String, Schema)>,
    obj: SchemaObject,
    parent: Option<SegSeq>,
    cspan: Option<SegSeq>,
    vspan: Option<SegSeq>,
    i: int,
    fuel: nat,
)
    requires
        obj.reference is None,
        obj.subschemas is None,
        obj.instance_type is Some,
        type_ok(obj, InstanceType::Integer),
        enum_ok(obj, SpecValue::Int(i)),
        obj.number is Some,
        multiple_ok(obj.number->0.multiple_of, i),
        !min_ok(obj.number->0.minimum, obj.number->0.exclusive_minimum, i),
        max_ok(obj.number->0.maximum, obj.number->0.exclusive_maximum, i),
    ensures
        v_obj(defs, obj, parent, cspan, vspan, SpecValue::Int(i), fuel).len() == 1,
        v_obj(defs, obj, parent, cspan, vspan, SpecValue::Int(i), fuel)[0].value
            is LessThanExpected,
{
}

/// A string violating only the length ceiling draws exactly one failure, of
/// the too-long kind.
pub proof fn lemma_single_violation_too_long(
    defs: Seq<(String, Schema)>,
    obj: SchemaObject,
    parent: Option<SegSeq>,
    cspan: Option<SegSeq>,
    vspan: Option<SegSeq>,
    text: Seq<char>,
    fuel: nat,
)
    requires
        obj.reference is None,
        obj.subschemas is None,
        obj.instance_type is Some,
        type_ok(obj, InstanceType::Str),
        enum_ok(obj, SpecValue::Str(text)),
        obj.string is Some,
        match obj.string->0.pattern {
            Some(p) => crate::pattern::pattern_compiles(p@) && crate::pattern::pattern_matches(
                p@,
                text,
            ),
            None => true,
        },
        obj.string->0.max_length is Some,
        text.len() > obj.string->0.max_length->0,
        match obj.string->0.min_length {
            Some(m) => text.len() >= m,
            None => true,
        },
    ensures
        v_obj(defs, obj, parent, cspan, vspan, SpecValue::Str(text), fuel).len() == 1,
        v_obj(defs, obj, parent, cspan, vspan, SpecValue::Str(text), fuel)[0].value is TooLong,
{
}


/// Accumulation: for a node without a reference, the combinator failures
/// and the leaf failures are both reported, in that order — neither
/// suppresses the other.
pub proof fn lemma_accumulation(
    defs: Seq<(String, Schema)>,
    obj: SchemaObject,
    parent: Option<SegSeq>,
    cspan: Option<SegSeq>,
    vspan: Option<SegSeq>,
    v: SpecValue,
    fuel: nat,
)
    requires
        obj.reference is None,
        obj.instance_type is Some,
    ensures
        v_obj(defs, obj, parent, cspan, vspan, v, fuel) == v_subschemas(
            defs,
            obj,
            parent,
            cspan,
            vspan,
            v,
            fuel,
        ) + v_leaf(defs, obj, parent, vspan, v, fuel),
        v_obj(defs, obj, parent, cspan, vspan, v, fuel).len() == v_subschemas(
            defs,
            obj,
            parent,
            cspan,
            vspan,
            v,
            fuel,
        ).len() + v_leaf(defs, obj, parent, vspan, v, fuel).len(),
{
}


/// The three outcomes of an exclusive combinator: exactly one accepting
/// branch passes silently, none yields one failure carrying the failing
/// branches' sets, and more than one yields one failure naming the
/// accepting branches' provenance.
pub proof fn lemma_one_of_outcomes(
    defs: Seq<(String, Schema)>,
    sub: crate::schema::SubschemaValidation,
    meta: Option<crate::schema::SpecMeta>,
    parent: Option<SegSeq>,
    cspan: Option<SegSeq>,
    vspan: Option<SegSeq>,
    v: SpecValue,
    fuel: nat,
)
    requires
        sub.one_of is Some,
    ensures
        ({
            let list = sub.one_of->0;
            let bs = v_branches(defs, list@, parent, cspan, vspan, v, list@.len() as int, fuel);
            let part = crate::model::subs_one(defs, sub, meta, parent, cspan, vspan, v, fuel);
            &&& (count_empty(bs) == 1 ==> part.len() == 0)
            &&& (count_empty(bs) == 0 ==> part.len() == 1 && (part[0].value matches
                crate::errors::SpecErrorValue::NoneValid { errors } && errors
                == crate::model::failing(bs)))
            &&& (count_empty(bs) > 1 ==> part.len() == 1 && (part[0].value matches
                crate::errors::SpecErrorValue::MoreThanOneValid { matched } && matched
                == crate::model::matched_metas(list@, bs, list@.len() as int)))
        }),
{
}

} // verus!
