//! The mathematical semantics of validation: for a schema document, a value
//! and a starting location, exactly which failures come out, in order. Every
//! engine function is proved against the functions here.
//!
//! Locations are threaded as three optional paths: `parent` is the inherited
//! location of the enclosing collection, `cspan` is the location the caller
//! assigned to the current step, and `vspan` is the location the traversal
//! assigned to the value itself.

use vstd::prelude::*;

use crate::errors::{SpecError, SpecErrorValue};
use crate::pattern::{pattern_compiles, pattern_matches};
use crate::schema::{
    lookup_def_spec, local_definition_spec, opt_meta_view, InstanceType, OneOrMany, RootSchema,
    Schema, SchemaObject, SpecMeta, types_view,
};
use crate::span::{combine_opt, combined_of, SegSeq};
use crate::strings::{dec_digits, int_str};
use crate::value::SpecValue;

verus! {

/// How many reference hops the engine will follow before it gives up; a
/// guard against reference cycles, which the document's own check does not
/// rule out.
pub const REF_FUEL: u64 = 64;

/// The message reported when the reference-hop guard runs out.
pub open spec fn depth_message() -> Seq<char> {
    "recursion depth limit reached"@
}

/// Assemble the model of one failure.
pub open spec fn ge(
    meta: Option<SpecMeta>,
    span: Option<SegSeq>,
    value: SpecErrorValue,
) -> SpecError {
    SpecError { meta, span, value }
}

/// The provenance of an object node.
pub open spec fn meta_v(obj: SchemaObject) -> Option<SpecMeta> {
    opt_meta_view(obj.metadata)
}

/// The provenance of a node, if it is an object.
pub open spec fn schema_meta(s: Schema) -> Option<SpecMeta> {
    match s {
        Schema::Object(o) => meta_v(o),
        Schema::Bool(_) => None,
    }
}

/// The instance type a value presents itself as.
pub open spec fn value_kind(v: SpecValue) -> InstanceType {
    match v {
        SpecValue::Bool(_) => InstanceType::Boolean,
        SpecValue::Int(_) => InstanceType::Integer,
        SpecValue::Str(_) => InstanceType::Str,
        SpecValue::Null => InstanceType::Null,
        SpecValue::Array(_) => InstanceType::Array,
        SpecValue::Object(_) => InstanceType::Object,
        SpecValue::Tagged(_, _) => InstanceType::Object,
    }
}

/// Whether one declared type admits a value of the given kind; an integer is
/// also a number.
pub open spec fn type_admits(declared: InstanceType, kind: InstanceType) -> bool {
    declared == kind || (declared == InstanceType::Number && kind == InstanceType::Integer)
}

/// Whether a declared type constraint admits a value of the given kind.
pub open spec fn types_admit(t: OneOrMany<InstanceType>, kind: InstanceType) -> bool {
    match t {
        OneOrMany::One(d) => type_admits(*d, kind),
        OneOrMany::Many(ds) => exists|i: int| 0 <= i < ds@.len() && type_admits(ds@[i], kind),
    }
}

/// Whether the node's type constraint, if any, admits the kind.
pub open spec fn type_ok(obj: SchemaObject, kind: InstanceType) -> bool {
    match obj.instance_type {
        Some(t) => types_admit(t, kind),
        None => true,
    }
}

/// Whether the node's enumeration, if any, lists the value.
pub open spec fn enum_ok(obj: SchemaObject, v: SpecValue) -> bool {
    match obj.enum_values {
        Some(list) => exists|i: int|
            0 <= i < list@.len() && crate::value::vview(list@[i]) == v,
        None => true,
    }
}

/// The absolute value of an integer.
pub open spec fn abs_int(i: int) -> int {
    if i < 0 {
        -i
    } else {
        i
    }
}

/// Whether a number is a multiple of a declared divisor; nothing is a
/// multiple of zero.
pub open spec fn multiple_ok(m: Option<i64>, i: int) -> bool {
    match m {
        Some(m) => m != 0 && abs_int(i) % abs_int(m as int) == 0,
        None => true,
    }
}

/// Whether a number respects a declared minimum.
pub open spec fn min_ok(minimum: Option<i64>, exclusive: Option<bool>, i: int) -> bool {
    match minimum {
        Some(min) => if exclusive == Some(true) {
            i > min
        } else {
            i >= min
        },
        None => true,
    }
}

/// Whether a number respects a declared maximum.
pub open spec fn max_ok(maximum: Option<i64>, exclusive: Option<bool>, i: int) -> bool {
    match maximum {
        Some(max) => if exclusive == Some(true) {
            i < max
        } else {
            i <= max
        },
        None => true,
    }
}

/// The failures of the numeric constraint group on a number, in order:
/// divisor, then minimum, then maximum.
pub open spec fn number_errors(obj: SchemaObject, span: Option<SegSeq>, i: int) -> Seq<SpecError> {
    match obj.number {
        None => Seq::empty(),
        Some(n) => (if !multiple_ok(n.multiple_of, i) {
            seq![
                ge(
                    meta_v(obj),
                    span,
                    SpecErrorValue::NotMultipleOf { multiple_of: n.multiple_of->0 as int },
                ),
            ]
        } else {
            Seq::empty()
        }) + (if !min_ok(n.minimum, n.exclusive_minimum, i) {
            seq![
                ge(
                    meta_v(obj),
                    span,
                    SpecErrorValue::LessThanExpected {
                        min: n.minimum->0 as int,
                        exclusive: n.exclusive_minimum == Some(true),
                    },
                ),
            ]
        } else {
            Seq::empty()
        }) + (if !max_ok(n.maximum, n.exclusive_maximum, i) {
            seq![
                ge(
                    meta_v(obj),
                    span,
                    SpecErrorValue::MoreThanExpected {
                        max: n.maximum->0 as int,
                        exclusive: n.exclusive_maximum == Some(true),
                    },
                ),
            ]
        } else {
            Seq::empty()
        }),
    }
}

/// The failures of the string constraint group on a text, in order: the
/// pattern (a pattern that does not compile is itself the failure), then the
/// maximum length, then the minimum length.
pub open spec fn string_errors(obj: SchemaObject, span: Option<SegSeq>, s: Seq<char>) -> Seq<
    SpecError,
> {
    match obj.string {
        None => Seq::empty(),
        Some(sv) => (match sv.pattern {
            Some(p) => if !pattern_compiles(p@) {
                seq![ge(meta_v(obj), span, SpecErrorValue::InvalidPattern(p@))]
            } else if !pattern_matches(p@, s) {
                seq![ge(meta_v(obj), span, SpecErrorValue::NoPatternMatch { pattern: p@ })]
            } else {
                Seq::empty()
            },
            None => Seq::empty(),
        }) + (match sv.max_length {
            Some(m) => if s.len() > m {
                seq![ge(meta_v(obj), span, SpecErrorValue::TooLong { max_length: m as int })]
            } else {
                Seq::empty()
            },
            None => Seq::empty(),
        }) + (match sv.min_length {
            Some(m) => if s.len() < m {
                seq![ge(meta_v(obj), span, SpecErrorValue::TooShort { min_length: m as int })]
            } else {
                Seq::empty()
            },
            None => Seq::empty(),
        }),
    }
}

/// The failures of a primitive value judged directly against a node: a type
/// mismatch ends the judgment, then an enumeration miss ends it, then the
/// numeric or string groups apply.
pub open spec fn prim_errors(obj: SchemaObject, span: Option<SegSeq>, v: SpecValue) -> Seq<
    SpecError,
> {
    if !type_ok(obj, value_kind(v)) {
        seq![
            ge(
                meta_v(obj),
                span,
                SpecErrorValue::InvalidType { expected: types_view(obj.instance_type->0) },
            ),
        ]
    } else if !enum_ok(obj, v) {
        seq![
            ge(
                meta_v(obj),
                span,
                SpecErrorValue::InvalidEnumValue {
                    expected: crate::value::vviews(obj.enum_values->0@),
                },
            ),
        ]
    } else {
        match v {
            SpecValue::Int(i) => number_errors(obj, span, i),
            SpecValue::Str(s) => string_errors(obj, span, s),
            _ => Seq::empty(),
        }
    }
}

/// The string form of a map key: a string is itself, an integer is written
/// in decimal, nothing else has one.
pub open spec fn key_string_spec(k: SpecValue) -> Option<Seq<char>> {
    match k {
        SpecValue::Str(s) => Some(s),
        SpecValue::Int(i) => Some(int_str(i)),
        _ => None,
    }
}

/// The structural height of a value; collections stand above their parts.
pub open spec fn sv_height(v: SpecValue) -> nat
    decreases v,
{
    match v {
        SpecValue::Bool(_) => 0,
        SpecValue::Int(_) => 0,
        SpecValue::Str(_) => 0,
        SpecValue::Null => 0,
        SpecValue::Array(items) => 1 + svs_height(items),
        SpecValue::Object(entries) => 1 + sve_height(entries),
        SpecValue::Tagged(_, payload) => 1 + sv_height(*payload),
    }
}

/// The largest height among a sequence of values.
pub open spec fn svs_height(s: Seq<SpecValue>) -> nat
    decreases s,
{
    if s.len() == 0 {
        0
    } else {
        let rest = svs_height(s.drop_last());
        let last = sv_height(s.last());
        if rest >= last {
            rest
        } else {
            last
        }
    }
}

/// The largest height among the keys and values of a sequence of entries.
pub open spec fn sve_height(s: Seq<(SpecValue, SpecValue)>) -> nat
    decreases s,
{
    if s.len() == 0 {
        0
    } else {
        let rest = sve_height(s.drop_last());
        let kh = sv_height(s.last().0);
        let vh = sv_height(s.last().1);
        let here = if kh >= vh {
            kh
        } else {
            vh
        };
        if rest >= here {
            rest
        } else {
            here
        }
    }
}

/// No element stands higher than its sequence.
pub proof fn lemma_svs_height(s: Seq<SpecValue>)
    ensures
        forall|i: int| 0 <= i < s.len() ==> sv_height(#[trigger] s[i]) <= svs_height(s),
    decreases s.len(),
{
    if s.len() > 0 {
        lemma_svs_height(s.drop_last());
        assert forall|i: int|
            0 <= i < s.len() implies sv_height(#[trigger] s[i]) <= svs_height(s) by {
            if i < s.len() - 1 {
                assert(s.drop_last()[i] == s[i]);
            }
        }
    }
}

/// No key or value stands higher than its entry list.
pub proof fn lemma_sve_height(s: Seq<(SpecValue, SpecValue)>)
    ensures
        forall|i: int| 0 <= i < s.len() ==> sv_height(#[trigger] s[i].0) <= sve_height(s),
        forall|i: int| 0 <= i < s.len() ==> sv_height(#[trigger] s[i].1) <= sve_height(s),
    decreases s.len(),
{
    if s.len() > 0 {
        lemma_sve_height(s.drop_last());
        assert forall|i: int|
            0 <= i < s.len() implies sv_height(#[trigger] s[i].0) <= sve_height(s) by {
            if i < s.len() - 1 {
                assert(s.drop_last()[i] == s[i]);
            }
        }
        assert forall|i: int|
            0 <= i < s.len() implies sv_height(#[trigger] s[i].1) <= sve_height(s) by {
            if i < s.len() - 1 {
                assert(s.drop_last()[i] == s[i]);
            }
        }
    }
}

/// How many of the branch results are empty, that is, how many branches
/// accepted the value.
pub open spec fn count_empty(bs: Seq<Seq<SpecError>>) -> nat
    decreases bs,
{
    if bs.len() == 0 {
        0nat
    } else {
        count_empty(bs.drop_last()) + (if bs.last().len() == 0 {
            1nat
        } else {
            0nat
        })
    }
}

/// The failure sets of the branches that rejected the value, in branch
/// order.
pub open spec fn failing(bs: Seq<Seq<SpecError>>) -> Seq<Seq<SpecError>>
    decreases bs,
{
    if bs.len() == 0 {
        Seq::empty()
    } else {
        failing(bs.drop_last()) + (if bs.last().len() > 0 {
            seq![bs.last()]
        } else {
            Seq::empty()
        })
    }
}

/// The provenance of the branches that accepted the value, in branch order;
/// `bs` are the per-branch results of `list`.
pub open spec fn matched_metas(list: Seq<Schema>, bs: Seq<Seq<SpecError>>, i: int) -> Seq<
    Option<SpecMeta>,
>
    decreases i,
{
    if i <= 0 || i > list.len() || i > bs.len() {
        Seq::empty()
    } else {
        matched_metas(list, bs, i - 1) + (if bs[i - 1].len() == 0 {
            seq![schema_meta(list[i - 1])]
        } else {
            Seq::empty()
        })
    }
}

/// The failures of one node on one value: an always-accept leaf has none, an
/// always-reject leaf has one, an object node is taken apart by
/// [`v_obj`].
pub open spec fn v_node(
    defs: Seq<(String, Schema)>,
    schema: Schema,
    parent: Option<SegSeq>,
    cspan: Option<SegSeq>,
    vspan: Option<SegSeq>,
    v: SpecValue,
    fuel: nat,
) -> Seq<SpecError>
    decreases fuel, sv_height(v), schema, 10int, 0int,
{
    match schema {
        Schema::Bool(b) => if b {
            Seq::empty()
        } else {
            seq![ge(None, combined_of(parent, cspan), SpecErrorValue::NotAllowed)]
        },
        Schema::Object(obj) => v_obj(defs, obj, parent, cspan, vspan, v, fuel),
    }
}

/// The failures of an object node: a reference is resolved first and is
/// terminal for the node; otherwise the combinators run, and then, only if
/// the node declares an instance type, the value is driven through the leaf
/// checks.
pub open spec fn v_obj(
    defs: Seq<(String, Schema)>,
    obj: SchemaObject,
    parent: Option<SegSeq>,
    cspan: Option<SegSeq>,
    vspan: Option<SegSeq>,
    v: SpecValue,
    fuel: nat,
) -> Seq<SpecError>
    decreases fuel, sv_height(v), obj, 9int, 0int,
{
    let combined = combined_of(parent, cspan);
    let value_span = if vspan is Some {
        combine_opt(combined, vspan)
    } else {
        None
    };
    match obj.reference {
        Some(r) => match local_definition_spec(r@) {
            Some(name) => match lookup_def_spec(defs, name) {
                Some(target) => if fuel == 0 {
                    seq![ge(meta_v(obj), value_span, SpecErrorValue::Custom(depth_message()))]
                } else {
                    v_node(defs, target, parent, vspan, vspan, v, (fuel - 1) as nat)
                },
                None => seq![
                    ge(meta_v(obj), value_span, SpecErrorValue::MissingDefinition(name)),
                ],
            },
            None => seq![ge(meta_v(obj), value_span, SpecErrorValue::ExternalReference(r@))],
        },
        None => v_subschemas(defs, obj, parent, cspan, vspan, v, fuel) + (
        if obj.instance_type is Some {
            v_leaf(defs, obj, parent, vspan, v, fuel)
        } else {
            Seq::empty()
        }),
    }
}

/// The per-branch failures of the first `i` schemas in a list, each branch
/// judged independently with the node's own locations.
pub open spec fn v_branches(
    defs: Seq<(String, Schema)>,
    list: Seq<Schema>,
    parent: Option<SegSeq>,
    cspan: Option<SegSeq>,
    vspan: Option<SegSeq>,
    v: SpecValue,
    i: int,
    fuel: nat,
) -> Seq<Seq<SpecError>>
    decreases fuel, sv_height(v), list, 5int, i,
{
    if i <= 0 || i > list.len() {
        Seq::empty()
    } else {
        v_branches(defs, list, parent, cspan, vspan, v, i - 1, fuel).push(
            v_node(defs, list[i - 1], parent, cspan, vspan, v, fuel),
        )
    }
}

/// The `allOf` part of a node's combinator failures: every branch's
/// failures accumulate.
pub open spec fn subs_all(
    defs: Seq<(String, Schema)>,
    sub: crate::schema::SubschemaValidation,
    parent: Option<SegSeq>,
    cspan: Option<SegSeq>,
    vspan: Option<SegSeq>,
    v: SpecValue,
    fuel: nat,
) -> Seq<SpecError>
    decreases fuel, sv_height(v), sub, 7int, 0int,
{
    match sub.all_of {
        Some(list) => v_branches(defs, list@, parent, cspan, vspan, v, list@.len() as int, fuel)
            .flatten(),
        None => Seq::empty(),
    }
}

/// The `anyOf` part: one failure carrying the failing branches' sets when
/// no branch accepts.
pub open spec fn subs_any(
    defs: Seq<(String, Schema)>,
    sub: crate::schema::SubschemaValidation,
    meta: Option<SpecMeta>,
    parent: Option<SegSeq>,
    cspan: Option<SegSeq>,
    vspan: Option<SegSeq>,
    v: SpecValue,
    fuel: nat,
) -> Seq<SpecError>
    decreases fuel, sv_height(v), sub, 7int, 0int,
{
    match sub.any_of {
        Some(list) => {
            let bs = v_branches(defs, list@, parent, cspan, vspan, v, list@.len() as int, fuel);
            if count_empty(bs) == 0 {
                seq![ge(meta, vspan, SpecErrorValue::NoneValid { errors: failing(bs) })]
            } else {
                Seq::empty()
            }
        },
        None => Seq::empty(),
    }
}

/// The `oneOf` part: a failure when no branch accepts, and a failure naming
/// the accepting branches when more than one does.
pub open spec fn subs_one(
    defs: Seq<(String, Schema)>,
    sub: crate::schema::SubschemaValidation,
    meta: Option<SpecMeta>,
    parent: Option<SegSeq>,
    cspan: Option<SegSeq>,
    vspan: Option<SegSeq>,
    v: SpecValue,
    fuel: nat,
) -> Seq<SpecError>
    decreases fuel, sv_height(v), sub, 7int, 0int,
{
    match sub.one_of {
        Some(list) => {
            let bs = v_branches(defs, list@, parent, cspan, vspan, v, list@.len() as int, fuel);
            if count_empty(bs) == 0 {
                seq![ge(meta, vspan, SpecErrorValue::NoneValid { errors: failing(bs) })]
            } else if count_empty(bs) > 1 {
                seq![
                    ge(
                        meta,
                        vspan,
                        SpecErrorValue::MoreThanOneValid {
                            matched: matched_metas(list@, bs, list@.len() as int),
                        },
                    ),
                ]
            } else {
                Seq::empty()
            }
        },
        None => Seq::empty(),
    }
}

/// The conditional part: the consequence of the condition's outcome; the
/// condition's own failures never show.
pub open spec fn subs_ite(
    defs: Seq<(String, Schema)>,
    sub: crate::schema::SubschemaValidation,
    parent: Option<SegSeq>,
    cspan: Option<SegSeq>,
    vspan: Option<SegSeq>,
    v: SpecValue,
    fuel: nat,
) -> Seq<SpecError>
    decreases fuel, sv_height(v), sub, 7int, 0int,
{
    match (sub.if_schema, sub.then_schema) {
        (Some(cond), Some(then)) => if v_node(defs, *cond, parent, cspan, vspan, v, fuel).len()
            == 0 {
            v_node(defs, *then, parent, cspan, vspan, v, fuel)
        } else {
            match sub.else_schema {
                Some(els) => v_node(defs, *els, parent, cspan, vspan, v, fuel),
                None => Seq::empty(),
            }
        },
        _ => Seq::empty(),
    }
}

/// The `not` part: a failure when the negated schema accepts.
pub open spec fn subs_not(
    defs: Seq<(String, Schema)>,
    sub: crate::schema::SubschemaValidation,
    meta: Option<SpecMeta>,
    parent: Option<SegSeq>,
    cspan: Option<SegSeq>,
    vspan: Option<SegSeq>,
    v: SpecValue,
    fuel: nat,
) -> Seq<SpecError>
    decreases fuel, sv_height(v), sub, 7int, 0int,
{
    match sub.not {
        Some(not) => if v_node(defs, *not, parent, cspan, vspan, v, fuel).len() == 0 {
            seq![ge(meta, vspan, SpecErrorValue::ValidNot { matched: schema_meta(*not) })]
        } else {
            Seq::empty()
        },
        None => Seq::empty(),
    }
}

/// The failures of the combinators of a node, in order: every `allOf`
/// branch accumulates; `anyOf` fails as a whole when no branch accepts;
/// `oneOf` fails when no branch or more than one branch accepts; a
/// conditional pair contributes the consequence of its condition; `not`
/// fails when its schema accepts.
pub open spec fn v_subschemas(
    defs: Seq<(String, Schema)>,
    obj: SchemaObject,
    parent: Option<SegSeq>,
    cspan: Option<SegSeq>,
    vspan: Option<SegSeq>,
    v: SpecValue,
    fuel: nat,
) -> Seq<SpecError>
    decreases fuel, sv_height(v), obj, 8int, 0int,
{
    match obj.subschemas {
        None => Seq::empty(),
        Some(sub) => subs_all(defs, sub, parent, cspan, vspan, v, fuel) + subs_any(
            defs,
            sub,
            meta_v(obj),
            parent,
            cspan,
            vspan,
            v,
            fuel,
        ) + subs_one(defs, sub, meta_v(obj), parent, cspan, vspan, v, fuel) + subs_ite(
            defs,
            sub,
            parent,
            cspan,
            vspan,
            v,
            fuel,
        ) + subs_not(defs, sub, meta_v(obj), parent, cspan, vspan, v, fuel),
    }
}

/// The failures of driving a value through the leaf checks of a node. A
/// value with no location of its own resets the inherited location first;
/// this mirrors the traversal protocol, where an absent location clears the
/// hierarchy.
pub open spec fn v_leaf(
    defs: Seq<(String, Schema)>,
    obj: SchemaObject,
    parent: Option<SegSeq>,
    vspan: Option<SegSeq>,
    v: SpecValue,
    fuel: nat,
) -> Seq<SpecError>
    decreases fuel, sv_height(v), obj, 7int, 0int,
    via v_leaf_decreases
{
    let lparent = if vspan is Some {
        parent
    } else {
        None
    };
    let lcombined = if vspan is Some {
        combined_of(parent, vspan)
    } else {
        None
    };
    match v {
        SpecValue::Array(items) => v_seq_obj(defs, obj, lcombined, items, fuel),
        SpecValue::Object(entries) => v_map_obj(defs, obj, lcombined, entries, fuel),
        SpecValue::Tagged(tag, payload) => match *payload {
            SpecValue::Array(_) => v_tagged(defs, obj, lparent, tag, *payload, fuel),
            SpecValue::Object(_) => v_tagged(defs, obj, lparent, tag, *payload, fuel),
            _ => v_map_obj(
                defs,
                obj,
                lcombined,
                seq![(SpecValue::Str(tag), *payload)],
                fuel,
            ),
        },
        _ => prim_errors(obj, lcombined, v),
    }
}

#[via_fn]
proof fn v_leaf_decreases(
    defs: Seq<(String, Schema)>,
    obj: SchemaObject,
    parent: Option<SegSeq>,
    vspan: Option<SegSeq>,
    v: SpecValue,
    fuel: nat,
) {
    if v is Tagged {
        let payload = *v->Tagged_1;
        let single = seq![(SpecValue::Str(v->Tagged_0), payload)];
        assert(single.len() == 1);
        assert(single.drop_last() =~= Seq::<(SpecValue, SpecValue)>::empty());
        assert(sve_height(single.drop_last()) == 0);
        assert(single.last() == (SpecValue::Str(v->Tagged_0), payload));
        assert(sv_height(single.last().0) == 0);
        assert(sv_height(single.last().1) == sv_height(payload));
        assert(sve_height(single) <= sv_height(payload));
        assert(sv_height(v) == 1 + sv_height(payload));
    }
}

/// The failures of an externally tagged variant with a collection payload:
/// the node must admit an object, the tag picks the governing sub-schema
/// among the node's properties, and an unmatched tag accepts everything
/// below it.
pub open spec fn v_tagged(
    defs: Seq<(String, Schema)>,
    obj: SchemaObject,
    lparent: Option<SegSeq>,
    tag: Seq<char>,
    payload: SpecValue,
    fuel: nat,
) -> Seq<SpecError>
    decreases fuel, 1 + sv_height(payload), obj, 6int, 0int,
{
    let tcomb = combine_opt(lparent, Some(seq![tag]));
    if !type_ok(obj, InstanceType::Object) {
        seq![
            ge(
                meta_v(obj),
                tcomb,
                SpecErrorValue::InvalidType { expected: types_view(obj.instance_type->0) },
            ),
        ]
    } else {
        match obj.object {
            None => Seq::empty(),
            Some(ov) => v_tag_props(defs, obj, lparent, tag, payload, 0, fuel),
        }
    }
}

/// Scan the node's exact-name properties for the tag, in declaration
/// order; the first hit governs the payload, and a miss moves on to the
/// pattern properties.
pub open spec fn v_tag_props(
    defs: Seq<(String, Schema)>,
    obj: SchemaObject,
    lparent: Option<SegSeq>,
    tag: Seq<char>,
    payload: SpecValue,
    k: int,
    fuel: nat,
) -> Seq<SpecError>
    decreases fuel, 1 + sv_height(payload), obj, 5int,
        (if k < 0 || obj.object is None {
            0int
        } else {
            obj.object->0.properties@.len() + 1 - k
        }),
{
    if obj.object is None {
        Seq::empty()
    } else {
        let props = obj.object->0.properties@;
        if k < 0 || k >= props.len() {
            v_tag_scan(defs, obj, lparent, tag, payload, 0, fuel)
        } else if props[k].0@ == tag {
            v_payload(defs, props[k].1, tcomb_of(lparent, tag), payload, fuel)
        } else {
            v_tag_props(defs, obj, lparent, tag, payload, k + 1, fuel)
        }
    }
}

/// The location of a tag step under its parent.
pub open spec fn tcomb_of(lparent: Option<SegSeq>, tag: Seq<char>) -> Option<SegSeq> {
    combine_opt(lparent, Some(seq![tag]))
}

/// Scan the pattern properties for one that matches the tag, in declaration
/// order; a pattern that does not compile is terminal, no pattern falls
/// through to `additionalProperties`, and with nothing left the tag is
/// unmatched and everything below it is accepted.
pub open spec fn v_tag_scan(
    defs: Seq<(String, Schema)>,
    obj: SchemaObject,
    lparent: Option<SegSeq>,
    tag: Seq<char>,
    payload: SpecValue,
    k: int,
    fuel: nat,
) -> Seq<SpecError>
    decreases fuel, 1 + sv_height(payload), obj, 4int,
        (if k < 0 || obj.object is None {
            0int
        } else {
            obj.object->0.pattern_properties@.len() - k
        }),
{
    let tcomb = tcomb_of(lparent, tag);
    let pats = obj.object->0.pattern_properties@;
    if obj.object is None {
        Seq::empty()
    } else if k < 0 || k >= pats.len() {
        match obj.object->0.additional_properties {
            Some(a) => v_payload(defs, *a, tcomb, payload, fuel),
            None => Seq::empty(),
        }
    } else if !pattern_compiles(pats[k].0@) {
        seq![ge(meta_v(obj), tcomb, SpecErrorValue::InvalidPattern(pats[k].0@))]
    } else if pattern_matches(pats[k].0@, tag) {
        v_payload(defs, pats[k].1, tcomb, payload, fuel)
    } else {
        v_tag_scan(defs, obj, lparent, tag, payload, k + 1, fuel)
    }
}

/// The failures of a tagged payload against the schema the tag resolved to.
pub open spec fn v_payload(
    defs: Seq<(String, Schema)>,
    schema: Schema,
    tcomb: Option<SegSeq>,
    payload: SpecValue,
    fuel: nat,
) -> Seq<SpecError>
    decreases fuel, 1 + sv_height(payload), schema, 3int, 0int,
{
    match payload {
        SpecValue::Array(items) => v_seq_any(defs, schema, tcomb, items, fuel),
        SpecValue::Object(entries) => v_map_any(defs, schema, tcomb, entries, fuel),
        _ => Seq::empty(),
    }
}

/// The failures of a sequence against an arbitrary node: boolean leaves
/// accept or reject it whole.
pub open spec fn v_seq_any(
    defs: Seq<(String, Schema)>,
    schema: Schema,
    lcombined: Option<SegSeq>,
    items: Seq<SpecValue>,
    fuel: nat,
) -> Seq<SpecError>
    decreases fuel, svs_height(items), schema, 7int, 0int,
{
    match schema {
        Schema::Bool(b) => if b {
            Seq::empty()
        } else {
            seq![ge(None, lcombined, SpecErrorValue::NotAllowed)]
        },
        Schema::Object(obj) => v_seq_obj(defs, obj, lcombined, items, fuel),
    }
}

/// The failures of a sequence against an object node: a type mismatch is
/// terminal for the subtree; otherwise every element is judged in order and
/// the cardinality and containment obligations are reported at the end.
pub open spec fn v_seq_obj(
    defs: Seq<(String, Schema)>,
    obj: SchemaObject,
    lcombined: Option<SegSeq>,
    items: Seq<SpecValue>,
    fuel: nat,
) -> Seq<SpecError>
    decreases fuel, svs_height(items), obj, 6int, 0int,
{
    if !type_ok(obj, InstanceType::Array) {
        seq![
            ge(
                meta_v(obj),
                lcombined,
                SpecErrorValue::InvalidType { expected: types_view(obj.instance_type->0) },
            ),
        ]
    } else {
        v_elems(defs, obj, lcombined, items, items.len() as int, fuel) + v_seq_end(
            defs,
            obj,
            lcombined,
            items,
            fuel,
        )
    }
}

/// The failures of the first `i` elements, in order.
pub open spec fn v_elems(
    defs: Seq<(String, Schema)>,
    obj: SchemaObject,
    parent2: Option<SegSeq>,
    items: Seq<SpecValue>,
    i: int,
    fuel: nat,
) -> Seq<SpecError>
    decreases fuel, svs_height(items), obj, 5int, i,
{
    if i <= 0 || i > items.len() {
        Seq::empty()
    } else {
        v_elems(defs, obj, parent2, items, i - 1, fuel) + v_elem(
            defs,
            obj,
            parent2,
            items,
            i - 1,
            fuel,
        )
    }
}

/// The position of the nearest earlier element equal to element `i`, looking
/// below `k`.
pub open spec fn last_eq_upto(items: Seq<SpecValue>, i: int, k: int) -> Option<int>
    decreases
        (if k < 0 {
            0int
        } else {
            k
        }),
{
    if k <= 0 {
        None
    } else if items[k - 1] == items[i] {
        Some(k - 1)
    } else {
        last_eq_upto(items, i, k - 1)
    }
}

/// The failures of element `i`: the element is judged against the schema
/// that applies to its position, and under a uniqueness constraint a repeat
/// of an earlier element is reported with both locations, the earlier one
/// being the nearest.
pub open spec fn v_elem(
    defs: Seq<(String, Schema)>,
    obj: SchemaObject,
    parent2: Option<SegSeq>,
    items: Seq<SpecValue>,
    i: int,
    fuel: nat,
) -> Seq<SpecError>
    decreases fuel, svs_height(items), obj, 4int, 0int,
    via v_elem_decreases
{
    if i < 0 || i >= items.len() {
        Seq::empty()
    } else {
        match obj.array {
        None => Seq::empty(),
        Some(arr) => {
            let ivs = Some(seq![dec_digits(i as nat)]);
            let vsp = combine_opt(parent2, ivs);
            (match arr.items {
                Some(OneOrMany::One(s)) => v_node(defs, *s, parent2, None, ivs, items[i], fuel),
                Some(OneOrMany::Many(list)) => if i < list@.len() {
                    v_node(defs, list@[i], parent2, None, ivs, items[i], fuel)
                } else {
                    match arr.additional_items {
                        Some(a) => v_node(defs, *a, parent2, None, ivs, items[i], fuel),
                        None => Seq::empty(),
                    }
                },
                None => Seq::empty(),
            }) + (if arr.unique_items == Some(true) && last_eq_upto(items, i, i) is Some {
                seq![
                    ge(
                        meta_v(obj),
                        vsp,
                        SpecErrorValue::NotUnique {
                            first: combine_opt(
                                parent2,
                                Some(seq![dec_digits(last_eq_upto(items, i, i)->0 as nat)]),
                            ),
                            duplicate: vsp,
                        },
                    ),
                ]
            } else {
                Seq::empty()
            })
        },
        }
    }
}

#[via_fn]
proof fn v_elem_decreases(
    defs: Seq<(String, Schema)>,
    obj: SchemaObject,
    parent2: Option<SegSeq>,
    items: Seq<SpecValue>,
    i: int,
    fuel: nat,
) {
    if 0 <= i < items.len() {
        lemma_svs_height(items);
    }
}

/// Whether some element among the first `i` satisfies the containment
/// schema.
pub open spec fn contains_sat(
    defs: Seq<(String, Schema)>,
    obj: SchemaObject,
    parent2: Option<SegSeq>,
    items: Seq<SpecValue>,
    i: int,
    fuel: nat,
) -> bool
    decreases fuel, svs_height(items), obj, 2int, i,
    via contains_sat_decreases
{
    if i <= 0 || i > items.len() || obj.array is None || obj.array->0.contains is None {
        false
    } else {
        contains_sat(defs, obj, parent2, items, i - 1, fuel) || v_node(
            defs,
            *obj.array->0.contains->0,
            parent2,
            None,
            Some(seq![dec_digits((i - 1) as nat)]),
            items[i - 1],
            fuel,
        ).len() == 0
    }
}

#[via_fn]
proof fn contains_sat_decreases(
    defs: Seq<(String, Schema)>,
    obj: SchemaObject,
    parent2: Option<SegSeq>,
    items: Seq<SpecValue>,
    i: int,
    fuel: nat,
) {
    if 0 < i <= items.len() {
        lemma_svs_height(items);
    }
}

/// The failures reported when a sequence ends: an unmet containment
/// obligation, then too few elements, then too many, all without a
/// location.
pub open spec fn v_seq_end(
    defs: Seq<(String, Schema)>,
    obj: SchemaObject,
    parent2: Option<SegSeq>,
    items: Seq<SpecValue>,
    fuel: nat,
) -> Seq<SpecError>
    decreases fuel, svs_height(items), obj, 3int, 0int,
{
    match obj.array {
        None => Seq::empty(),
        Some(arr) => (match arr.contains {
            Some(c) => if !contains_sat(defs, obj, parent2, items, items.len() as int, fuel) {
                seq![
                    ge(meta_v(obj), None, SpecErrorValue::MustContain { schema: schema_meta(*c) }),
                ]
            } else {
                Seq::empty()
            },
            None => Seq::empty(),
        }) + (match arr.min_items {
            Some(min) => if items.len() < min {
                seq![ge(meta_v(obj), None, SpecErrorValue::NotEnoughItems { min: min as int })]
            } else {
                Seq::empty()
            },
            None => Seq::empty(),
        }) + (match arr.max_items {
            Some(max) => if items.len() > max {
                seq![ge(meta_v(obj), None, SpecErrorValue::TooManyItems { max: max as int })]
            } else {
                Seq::empty()
            },
            None => Seq::empty(),
        }),
    }
}

/// The failures of a map against an arbitrary node: boolean leaves accept
/// or reject it whole.
pub open spec fn v_map_any(
    defs: Seq<(String, Schema)>,
    schema: Schema,
    lcombined: Option<SegSeq>,
    entries: Seq<(SpecValue, SpecValue)>,
    fuel: nat,
) -> Seq<SpecError>
    decreases fuel, sve_height(entries), schema, 7int, 0int,
{
    match schema {
        Schema::Bool(b) => if b {
            Seq::empty()
        } else {
            seq![ge(None, lcombined, SpecErrorValue::NotAllowed)]
        },
        Schema::Object(obj) => v_map_obj(defs, obj, lcombined, entries, fuel),
    }
}

/// The failures of one key step: a key with no string form is terminal for
/// the whole map, and a key that fails the node's name schema is terminal
/// as well.
pub open spec fn key_step_errors(
    defs: Seq<(String, Schema)>,
    obj: SchemaObject,
    parent2: Option<SegSeq>,
    k: SpecValue,
    fuel: nat,
) -> Seq<SpecError>
    decreases fuel, sv_height(k), obj, 4int, 0int,
{
    match key_string_spec(k) {
        None => seq![ge(meta_v(obj), Some(seq!["???"@]), SpecErrorValue::KeyNotString)],
        Some(ks) => match obj.object {
            Some(ov) => match ov.property_names {
                Some(ns) => v_node(
                    defs,
                    *ns,
                    parent2,
                    Some(seq![ks]),
                    Some(seq![ks]),
                    SpecValue::Str(ks),
                    fuel,
                ),
                None => Seq::empty(),
            },
            None => Seq::empty(),
        },
    }
}

/// The first entry whose key step fails, if any.
pub open spec fn first_key_abort(
    defs: Seq<(String, Schema)>,
    obj: SchemaObject,
    parent2: Option<SegSeq>,
    entries: Seq<(SpecValue, SpecValue)>,
    i: int,
    fuel: nat,
) -> Option<int>
    decreases fuel, sve_height(entries), obj, 5int,
        (if i < 0 {
            0int
        } else {
            entries.len() - i
        }),
    via first_key_abort_decreases
{
    if i < 0 || i >= entries.len() {
        None
    } else if key_step_errors(defs, obj, parent2, entries[i].0, fuel).len() > 0 {
        Some(i)
    } else {
        first_key_abort(defs, obj, parent2, entries, i + 1, fuel)
    }
}

#[via_fn]
proof fn first_key_abort_decreases(
    defs: Seq<(String, Schema)>,
    obj: SchemaObject,
    parent2: Option<SegSeq>,
    entries: Seq<(SpecValue, SpecValue)>,
    i: int,
    fuel: nat,
) {
    if 0 <= i < entries.len() {
        lemma_sve_height(entries);
    }
}

/// The failures of one value step: the entry's value is judged against the
/// exact-name schema, else the first matching pattern schema, else the
/// schema for additional entries, else nothing.
pub open spec fn value_step_errors(
    defs: Seq<(String, Schema)>,
    obj: SchemaObject,
    parent2: Option<SegSeq>,
    ks: Seq<char>,
    val: SpecValue,
    fuel: nat,
) -> Seq<SpecError>
    decreases fuel, sv_height(val), obj, 4int, 0int,
{
    match obj.object {
        None => Seq::empty(),
        Some(ov) => value_prop_scan(defs, obj, parent2, ks, val, 0, fuel),
    }
}

/// Scan the node's exact-name properties for the entry's name, in
/// declaration order; the first hit judges the value, and a miss moves on
/// to the pattern properties.
pub open spec fn value_prop_scan(
    defs: Seq<(String, Schema)>,
    obj: SchemaObject,
    parent2: Option<SegSeq>,
    ks: Seq<char>,
    val: SpecValue,
    k: int,
    fuel: nat,
) -> Seq<SpecError>
    decreases fuel, sv_height(val), obj, 3int,
        (if k < 0 || obj.object is None {
            0int
        } else {
            obj.object->0.properties@.len() + 1 - k
        }),
{
    if obj.object is None {
        Seq::empty()
    } else {
        let props = obj.object->0.properties@;
        if k < 0 || k >= props.len() {
            value_pat_scan(defs, obj, parent2, ks, val, 0, fuel)
        } else if props[k].0@ == ks {
            v_node(defs, props[k].1, parent2, None, Some(seq![ks]), val, fuel)
        } else {
            value_prop_scan(defs, obj, parent2, ks, val, k + 1, fuel)
        }
    }
}

/// Scan the pattern properties for one that matches the entry's name, in
/// declaration order; a pattern that does not compile is the failure
/// itself, and no match falls through to the schema for additional
/// entries.
pub open spec fn value_pat_scan(
    defs: Seq<(String, Schema)>,
    obj: SchemaObject,
    parent2: Option<SegSeq>,
    ks: Seq<char>,
    val: SpecValue,
    k: int,
    fuel: nat,
) -> Seq<SpecError>
    decreases fuel, sv_height(val), obj, 2int,
        (if k < 0 || obj.object is None {
            0int
        } else {
            obj.object->0.pattern_properties@.len() - k
        }),
{
    let pats = obj.object->0.pattern_properties@;
    if obj.object is None {
        Seq::empty()
    } else if k < 0 || k >= pats.len() {
        match obj.object->0.additional_properties {
            Some(a) => v_node(defs, *a, parent2, None, Some(seq![ks]), val, fuel),
            None => Seq::empty(),
        }
    } else if !pattern_compiles(pats[k].0@) {
        seq![ge(meta_v(obj), Some(seq![ks]), SpecErrorValue::InvalidPattern(pats[k].0@))]
    } else if pattern_matches(pats[k].0@, ks) {
        v_node(defs, pats[k].1, parent2, None, Some(seq![ks]), val, fuel)
    } else {
        value_pat_scan(defs, obj, parent2, ks, val, k + 1, fuel)
    }
}

/// The failures of the first `i` fully processed entries, in order; their
/// key steps are known to have passed.
pub open spec fn v_entries(
    defs: Seq<(String, Schema)>,
    obj: SchemaObject,
    parent2: Option<SegSeq>,
    entries: Seq<(SpecValue, SpecValue)>,
    i: int,
    fuel: nat,
) -> Seq<SpecError>
    decreases fuel, sve_height(entries), obj, 5int, i,
    via v_entries_decreases
{
    if i <= 0 || i > entries.len() {
        Seq::empty()
    } else {
        v_entries(defs, obj, parent2, entries, i - 1, fuel) + value_step_errors(
            defs,
            obj,
            parent2,
            match key_string_spec(entries[i - 1].0) {
                Some(ks) => ks,
                None => Seq::empty(),
            },
            entries[i - 1].1,
            fuel,
        )
    }
}

#[via_fn]
proof fn v_entries_decreases(
    defs: Seq<(String, Schema)>,
    obj: SchemaObject,
    parent2: Option<SegSeq>,
    entries: Seq<(SpecValue, SpecValue)>,
    i: int,
    fuel: nat,
) {
    if 0 < i <= entries.len() {
        lemma_sve_height(entries);
    }
}

/// Whether some entry's key has the given string form.
pub open spec fn key_covered(entries: Seq<(SpecValue, SpecValue)>, name: Seq<char>) -> bool {
    exists|j: int| 0 <= j < entries.len() && key_string_spec(#[trigger] entries[j].0) == Some(name)
}

/// One failure for each required name no entry covers, in declaration
/// order.
pub open spec fn required_errors(
    obj: SchemaObject,
    required: Seq<String>,
    entries: Seq<(SpecValue, SpecValue)>,
) -> Seq<SpecError>
    decreases required,
{
    if required.len() == 0 {
        Seq::empty()
    } else {
        required_errors(obj, required.drop_last(), entries) + (
        if !key_covered(entries, required.last()@) {
            seq![
                ge(
                    meta_v(obj),
                    None,
                    SpecErrorValue::RequiredProperty { name: required.last()@ },
                ),
            ]
        } else {
            Seq::empty()
        })
    }
}

/// The failures reported when a map ends: too many entries, then too few,
/// then one failure for each missing required name, all without a location.
pub open spec fn v_map_end(
    obj: SchemaObject,
    entries: Seq<(SpecValue, SpecValue)>,
) -> Seq<SpecError> {
    match obj.object {
        None => Seq::empty(),
        Some(ov) => (match ov.max_properties {
            Some(max) => if entries.len() > max {
                seq![
                    ge(meta_v(obj), None, SpecErrorValue::TooManyProperties { max: max as int }),
                ]
            } else {
                Seq::empty()
            },
            None => Seq::empty(),
        }) + (match ov.min_properties {
            Some(min) => if entries.len() < min {
                seq![
                    ge(meta_v(obj), None, SpecErrorValue::NotEnoughProperties { min: min as int }),
                ]
            } else {
                Seq::empty()
            },
            None => Seq::empty(),
        }) + required_errors(obj, ov.required@, entries),
    }
}

/// A found key abort lies within the entry list.
pub proof fn lemma_first_key_abort_range(
    defs: Seq<(String, Schema)>,
    obj: SchemaObject,
    parent2: Option<SegSeq>,
    entries: Seq<(SpecValue, SpecValue)>,
    i: int,
    fuel: nat,
)
    requires
        0 <= i,
    ensures
        match first_key_abort(defs, obj, parent2, entries, i, fuel) {
            Some(k) => i <= k < entries.len(),
            None => true,
        },
    decreases entries.len() - i,
{
    if i < entries.len() {
        lemma_first_key_abort_range(defs, obj, parent2, entries, i + 1, fuel);
    }
}

/// The failures of a map against an object node: a type mismatch is
/// terminal for the subtree; otherwise entries are processed in order, a
/// failing key step cuts the walk short, and only a complete walk reports
/// the end-of-map obligations.
pub open spec fn v_map_obj(
    defs: Seq<(String, Schema)>,
    obj: SchemaObject,
    lcombined: Option<SegSeq>,
    entries: Seq<(SpecValue, SpecValue)>,
    fuel: nat,
) -> Seq<SpecError>
    decreases fuel, sve_height(entries), obj, 6int, 0int,
    via v_map_obj_decreases
{
    if !type_ok(obj, InstanceType::Object) {
        seq![
            ge(
                meta_v(obj),
                lcombined,
                SpecErrorValue::InvalidType { expected: types_view(obj.instance_type->0) },
            ),
        ]
    } else {
        match first_key_abort(defs, obj, lcombined, entries, 0, fuel) {
            Some(k) => if 0 <= k < entries.len() {
                v_entries(defs, obj, lcombined, entries, k, fuel) + key_step_errors(
                    defs,
                    obj,
                    lcombined,
                    entries[k].0,
                    fuel,
                )
            } else {
                Seq::empty()
            },
            None => v_entries(defs, obj, lcombined, entries, entries.len() as int, fuel)
                + v_map_end(obj, entries),
        }
    }
}

#[via_fn]
proof fn v_map_obj_decreases(
    defs: Seq<(String, Schema)>,
    obj: SchemaObject,
    lcombined: Option<SegSeq>,
    entries: Seq<(SpecValue, SpecValue)>,
    fuel: nat,
) {
    lemma_sve_height(entries);
}

/// The failures of a whole document on one value: the root node judged
/// with an inherited starting location, no step location of its own, and
/// the location the traversal assigned to the value.
pub open spec fn v_root(
    root: RootSchema,
    v: SpecValue,
    parent: Option<SegSeq>,
    vspan: Option<SegSeq>,
    fuel: nat,
) -> Seq<SpecError> {
    v_obj(root.definitions@, root.schema, parent, None, vspan, v, fuel)
}

} // verus!
