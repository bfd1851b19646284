//! The validator: it interprets a schema document over a value, reference
//! resolution first, then combinators, then the leaf checks, and returns the
//! failures the semantics in [`crate::model`] prescribes, in the same order.

use vstd::prelude::*;

use crate::errors::{
    Error, Errors, ErrorValue, InvalidSchema, SpecError, SpecErrorValue, UnsupportedValue,
};
use crate::model::{
    abs_int, contains_sat, count_empty, enum_ok, failing, first_key_abort, ge, key_covered,
    key_step_errors, key_string_spec, last_eq_upto, matched_metas, meta_v, number_errors,
    prim_errors, required_errors, string_errors, type_admits, type_ok, types_admit, v_branches,
    v_elem, v_elems, v_entries, v_leaf, v_map_any, v_map_end, v_map_obj, v_node, v_obj, v_payload,
    v_seq_any, v_seq_end, v_seq_obj, v_subschemas, v_tag_props, v_tag_scan, v_tagged, value_kind,
    value_pat_scan, value_prop_scan, value_step_errors,
};
use crate::pattern::{regex_compiles, regex_match};
use crate::schema::{
    dup_opt_meta, dup_types, local_definition, lookup_def, InstanceType, Metadata, OneOrMany,
    RootSchema, Schema, SchemaObject,
};
use crate::span::{combined, dup_opt_keys, opt_keys_view, Keys};
use crate::strings::{i64_to_string, usize_to_string};
use crate::value::{lemma_vviews, value_clone, value_eq, vview, vviews, Value};

verus! {

/// The instance type a value presents itself as.
pub fn kind_of(v: &Value) -> (r: InstanceType)
    ensures
        r == value_kind(v@),
{
    match v {
        Value::Bool(_) => InstanceType::Boolean,
        Value::Int(_) => InstanceType::Integer,
        Value::Str(_) => InstanceType::Str,
        Value::Null => InstanceType::Null,
        Value::Array(_) => InstanceType::Array,
        Value::Object(_) => InstanceType::Object,
        Value::Tagged(_, _) => InstanceType::Object,
    }
}

/// Whether a declared type constraint admits the kind.
#[verifier::loop_isolation(false)]
pub fn types_admit_exec(t: &OneOrMany<InstanceType>, kind: InstanceType) -> (r: bool)
    ensures
        r == types_admit(*t, kind),
{
    match t {
        OneOrMany::One(d) => **d == kind || (**d == InstanceType::Number && kind
            == InstanceType::Integer),
        OneOrMany::Many(ds) => {
            let n = ds.len();
            let mut i: usize = 0;
            while i < n
                invariant
                    0 <= i <= n,
                    forall|j: int| 0 <= j < i ==> !type_admits(ds@[j], kind),
                decreases n - i,
            {
                let d = ds[i];
                if d == kind || (d == InstanceType::Number && kind == InstanceType::Integer) {
                    return true;
                }
                i += 1;
            }
            false
        },
    }
}

/// The failure of a type mismatch, if the node declares types the kind does
/// not meet.
pub fn check_type(obj: &SchemaObject, span: &Option<Keys>, kind: InstanceType) -> (r: Errors)
    ensures
        r@ == (if type_ok(*obj, kind) {
            Seq::<SpecError>::empty()
        } else {
            seq![
                ge(
                    meta_v(*obj),
                    opt_keys_view(*span),
                    SpecErrorValue::InvalidType {
                        expected: crate::schema::types_view(obj.instance_type->0),
                    },
                ),
            ]
        }),
{
    match &obj.instance_type {
        None => Errors::new(),
        Some(t) => {
            if types_admit_exec(t, kind) {
                Errors::new()
            } else {
                Errors::one(
                    Error::new(
                        dup_opt_meta(&obj.metadata),
                        dup_opt_keys(span),
                        ErrorValue::InvalidType { expected: dup_types(t) },
                    ),
                )
            }
        },
    }
}

/// The failure of an enumeration miss, if the node declares literals the
/// value is not among.
#[verifier::loop_isolation(false)]
pub fn check_enum(obj: &SchemaObject, span: &Option<Keys>, v: &Value) -> (r: Errors)
    ensures
        r@ == (if enum_ok(*obj, v@) {
            Seq::<SpecError>::empty()
        } else {
            seq![
                ge(
                    meta_v(*obj),
                    opt_keys_view(*span),
                    SpecErrorValue::InvalidEnumValue { expected: vviews(obj.enum_values->0@) },
                ),
            ]
        }),
{
    match &obj.enum_values {
        None => Errors::new(),
        Some(list) => {
            let n = list.len();
            let mut i: usize = 0;
            while i < n
                invariant
                    0 <= i <= n,
                    forall|j: int| 0 <= j < i ==> vview(#[trigger] list@[j]) != v@,
                decreases n - i,
            {
                if value_eq(&list[i], v) {
                    return Errors::new();
                }
                i += 1;
            }
            let mut expected: Vec<Value> = Vec::new();
            let mut k: usize = 0;
            while k < n
                invariant
                    0 <= k <= n,
                    expected@.len() == k,
                    forall|j: int| 0 <= j < k ==> vview(#[trigger] expected@[j]) == vview(list@[j]),
                decreases n - k,
            {
                let c = value_clone(&list[k]);
                expected.push(c);
                k += 1;
            }
            proof {
                lemma_vviews(expected@);
                lemma_vviews(list@);
                assert forall|j: int|
                    0 <= j < n implies vviews(expected@)[j] == vviews(list@)[j] by {
                    assert(vview(expected@[j]) == vview(list@[j]));
                }
                assert(vviews(expected@) =~= vviews(list@));
            }
            Errors::one(
                Error::new(
                    dup_opt_meta(&obj.metadata),
                    dup_opt_keys(span),
                    ErrorValue::InvalidEnumValue { expected },
                ),
            )
        },
    }
}

/// The magnitude of a signed number.
pub fn abs_of_i64(i: i64) -> (r: u64)
    ensures
        r == abs_int(i as int),
{
    if i == i64::MIN {
        9223372036854775808u64
    } else if i < 0 {
        (-i) as u64
    } else {
        i as u64
    }
}

/// The failures of the numeric constraint group on a number.
pub fn check_number(obj: &SchemaObject, span: &Option<Keys>, i: i64) -> (r: Errors)
    ensures
        r@ == number_errors(*obj, opt_keys_view(*span), i as int),
{
    let mut out = Errors::new();
    match &obj.number {
        None => out,
        Some(n) => {
            match n.multiple_of {
                Some(m) => {
                    let divisible = if m == 0 {
                        false
                    } else {
                        abs_of_i64(i) % abs_of_i64(m) == 0
                    };
                    if !divisible {
                        out.push(
                            Error::new(
                                dup_opt_meta(&obj.metadata),
                                dup_opt_keys(span),
                                ErrorValue::NotMultipleOf { multiple_of: m },
                            ),
                        );
                    }
                },
                None => {},
            }
            match n.minimum {
                Some(min) => {
                    let excl = n.exclusive_minimum == Some(true);
                    let ok = if excl {
                        i > min
                    } else {
                        i >= min
                    };
                    if !ok {
                        out.push(
                            Error::new(
                                dup_opt_meta(&obj.metadata),
                                dup_opt_keys(span),
                                ErrorValue::LessThanExpected { min, exclusive: excl },
                            ),
                        );
                    }
                },
                None => {},
            }
            match n.maximum {
                Some(max) => {
                    let excl = n.exclusive_maximum == Some(true);
                    let ok = if excl {
                        i < max
                    } else {
                        i <= max
                    };
                    if !ok {
                        out.push(
                            Error::new(
                                dup_opt_meta(&obj.metadata),
                                dup_opt_keys(span),
                                ErrorValue::MoreThanExpected { max, exclusive: excl },
                            ),
                        );
                    }
                },
                None => {},
            }
            proof {
                assert(out@ =~= number_errors(*obj, opt_keys_view(*span), i as int));
            }
            out
        },
    }
}

/// The failures of the string constraint group on a text.
pub fn check_string(obj: &SchemaObject, span: &Option<Keys>, s: &String) -> (r: Errors)
    ensures
        r@ == string_errors(*obj, opt_keys_view(*span), s@),
{
    let mut out = Errors::new();
    match &obj.string {
        None => out,
        Some(sv) => {
            match &sv.pattern {
                Some(p) => {
                    match regex_match(p, s) {
                        None => {
                            out.push(
                                Error::new(
                                    dup_opt_meta(&obj.metadata),
                                    dup_opt_keys(span),
                                    ErrorValue::InvalidSchema(
                                        InvalidSchema::InvalidPattern { pattern: p.clone() },
                                    ),
                                ),
                            );
                        },
                        Some(matched) => {
                            if !matched {
                                out.push(
                                    Error::new(
                                        dup_opt_meta(&obj.metadata),
                                        dup_opt_keys(span),
                                        ErrorValue::NoPatternMatch { pattern: p.clone() },
                                    ),
                                );
                            }
                        },
                    }
                },
                None => {},
            }
            let len = s.as_str().unicode_len();
            match sv.max_length {
                Some(m) => {
                    if len > m as usize {
                        out.push(
                            Error::new(
                                dup_opt_meta(&obj.metadata),
                                dup_opt_keys(span),
                                ErrorValue::TooLong { max_length: m },
                            ),
                        );
                    }
                },
                None => {},
            }
            match sv.min_length {
                Some(m) => {
                    if len < m as usize {
                        out.push(
                            Error::new(
                                dup_opt_meta(&obj.metadata),
                                dup_opt_keys(span),
                                ErrorValue::TooShort { min_length: m },
                            ),
                        );
                    }
                },
                None => {},
            }
            proof {
                assert(out@ =~= string_errors(*obj, opt_keys_view(*span), s@));
            }
            out
        },
    }
}

/// The failures of a primitive value judged directly against a node: type
/// first, then enumeration, then the numeric or string group.
pub fn validate_prim(obj: &SchemaObject, span: &Option<Keys>, v: &Value) -> (r: Errors)
    requires
        !(v@ is Array),
        !(v@ is Object),
        !(v@ is Tagged),
    ensures
        r@ == prim_errors(*obj, opt_keys_view(*span), v@),
{
    let kind = kind_of(v);
    let type_errs = check_type(obj, span, kind);
    if type_errs.len() > 0 {
        return type_errs;
    }
    let enum_errs = check_enum(obj, span, v);
    if enum_errs.len() > 0 {
        return enum_errs;
    }
    match v {
        Value::Int(i) => check_number(obj, span, *i),
        Value::Str(s) => check_string(obj, span, s),
        _ => Errors::new(),
    }
}

/// A location of one segment.
pub(crate) fn one_seg(s: String) -> (r: Keys)
    ensures
        r@ == seq![s@],
{
    let mut k = Keys::new();
    k.push(s);
    proof {
        assert(k@ =~= seq![s@]);
    }
    k
}

/// The string form of a map key, if it has one.
pub(crate) fn key_string(k: &Value) -> (r: Option<String>)
    ensures
        crate::schema::opt_str_view(r) == key_string_spec(k@),
{
    match k {
        Value::Str(s) => Some(s.clone()),
        Value::Int(i) => Some(i64_to_string(*i)),
        _ => None,
    }
}

/// Judge the value against every schema in a list, each branch on its own,
/// and hand back the per-branch failures.
#[verifier::loop_isolation(false)]
pub fn validate_branches(
    defs: &Vec<(String, Schema)>,
    list: &Vec<Schema>,
    parent: &Option<Keys>,
    cspan: &Option<Keys>,
    vspan: &Option<Keys>,
    v: &Value,
    fuel: u64,
) -> (r: Vec<Errors>)
    ensures
        r@.len() == list@.len(),
        crate::errors::errslist_view(r@) == v_branches(
            defs@,
            list@,
            opt_keys_view(*parent),
            opt_keys_view(*cspan),
            opt_keys_view(*vspan),
            v@,
            list@.len() as int,
            fuel as nat,
        ),
    decreases fuel, crate::model::sv_height(v@), list@, 5int, 0int,
{
    let ghost gp = opt_keys_view(*parent);
    let ghost gc = opt_keys_view(*cspan);
    let ghost gv = opt_keys_view(*vspan);
    let n = list.len();
    let mut out: Vec<Errors> = Vec::new();
    let mut i: usize = 0;
    while i < n
        invariant
            0 <= i <= n,
            out@.len() == i,
            crate::errors::errslist_view(out@) == v_branches(
                defs@,
                list@,
                gp,
                gc,
                gv,
                v@,
                i as int,
                fuel as nat,
            ),
        decreases n - i,
    {
        proof {
            assert(decreases_to!(list@ => list@[i as int]));
        }
        let b = validate_node(defs, &list[i], parent, cspan, vspan, v, fuel);
        proof {
            let prev = out@;
            assert(prev.push(b).drop_last() =~= prev);
        }
        out.push(b);
        i += 1;
    }
    out
}

/// The failures of the combinators of a node, in the order the groups are
/// declared in the semantics.
#[verifier::loop_isolation(false)]
#[verifier::rlimit(60)]
pub fn validate_subschemas(
    defs: &Vec<(String, Schema)>,
    obj: &SchemaObject,
    parent: &Option<Keys>,
    cspan: &Option<Keys>,
    vspan: &Option<Keys>,
    v: &Value,
    fuel: u64,
) -> (r: Errors)
    ensures
        r@ == v_subschemas(
            defs@,
            *obj,
            opt_keys_view(*parent),
            opt_keys_view(*cspan),
            opt_keys_view(*vspan),
            v@,
            fuel as nat,
        ),
    decreases fuel, crate::model::sv_height(v@), *obj, 8int, 0int,
{
    let ghost gp = opt_keys_view(*parent);
    let ghost gc = opt_keys_view(*cspan);
    let ghost gv = opt_keys_view(*vspan);
    let mut out = Errors::new();
    match &obj.subschemas {
        None => {
            return out;
        },
        Some(sub) => {
            match &sub.all_of {
                Some(list) => {
                    proof {
                        assert(decreases_to!(*obj => obj.subschemas->0.all_of->0@));
                    }
                    let bs = validate_branches(defs, list, parent, cspan, vspan, v, fuel);
                    append_all(&mut out, bs);
                },
                None => {},
            }
            match &sub.any_of {
                Some(list) => {
                    proof {
                        assert(decreases_to!(*obj => obj.subschemas->0.any_of->0@));
                    }
                    let bs = validate_branches(defs, list, parent, cspan, vspan, v, fuel);
                    let none_matched = count_matching(&bs) == 0;
                    if none_matched {
                        let fv = collect_failing(bs);
                        out.push(
                            Error::new(
                                dup_opt_meta(&obj.metadata),
                                dup_opt_keys(vspan),
                                ErrorValue::NoneValid { errors: fv },
                            ),
                        );
                    }
                },
                None => {},
            }
            match &sub.one_of {
                Some(list) => {
                    proof {
                        assert(decreases_to!(*obj => obj.subschemas->0.one_of->0@));
                    }
                    let bs = validate_branches(defs, list, parent, cspan, vspan, v, fuel);
                    let matched = count_matching(&bs);
                    if matched == 0 {
                        let fv = collect_failing(bs);
                        out.push(
                            Error::new(
                                dup_opt_meta(&obj.metadata),
                                dup_opt_keys(vspan),
                                ErrorValue::NoneValid { errors: fv },
                            ),
                        );
                    } else if matched > 1 {
                        let mm = collect_matched_metas(list, &bs);
                        out.push(
                            Error::new(
                                dup_opt_meta(&obj.metadata),
                                dup_opt_keys(vspan),
                                ErrorValue::MoreThanOneValid { matched: mm },
                            ),
                        );
                    }
                },
                None => {},
            }
            match (&sub.if_schema, &sub.then_schema) {
                (Some(cond), Some(then)) => {
                    proof {
                        assert(decreases_to!(*obj => *obj.subschemas->0.if_schema->0));
                        assert(decreases_to!(*obj => *obj.subschemas->0.then_schema->0));
                    }
                    let cond_errs = validate_node(defs, cond, parent, cspan, vspan, v, fuel);
                    if cond_errs.is_empty() {
                        let then_errs = validate_node(defs, then, parent, cspan, vspan, v, fuel);
                        out.combine(then_errs);
                    } else {
                        match &sub.else_schema {
                            Some(els) => {
                                proof {
                                    assert(decreases_to!(*obj =>
                                        *obj.subschemas->0.else_schema->0));
                                }
                                let else_errs = validate_node(
                                    defs,
                                    els,
                                    parent,
                                    cspan,
                                    vspan,
                                    v,
                                    fuel,
                                );
                                out.combine(else_errs);
                            },
                            None => {},
                        }
                    }
                },
                _ => {},
            }
            match &sub.not {
                Some(not) => {
                    proof {
                        assert(decreases_to!(*obj => *obj.subschemas->0.not->0));
                    }
                    let not_errs = validate_node(defs, not, parent, cspan, vspan, v, fuel);
                    if not_errs.is_empty() {
                        let matched = match &**not {
                            Schema::Object(o) => dup_opt_meta(&o.metadata),
                            Schema::Bool(_) => None,
                        };
                        out.push(
                            Error::new(
                                dup_opt_meta(&obj.metadata),
                                dup_opt_keys(vspan),
                                ErrorValue::ValidNot { matched },
                            ),
                        );
                    }
                },
                None => {},
            }
            proof {
                assert(out@ =~= v_subschemas(defs@, *obj, gp, gc, gv, v@, fuel as nat));
            }
            out
        },
    }
}

/// How many branch results are empty.
#[verifier::loop_isolation(false)]
pub fn count_matching(bs: &Vec<Errors>) -> (r: usize)
    ensures
        r == count_empty(crate::errors::errslist_view(bs@)),
{
    let ghost bsv = crate::errors::errslist_view(bs@);
    proof {
        crate::errors::lemma_errslist_view(bs@);
        assert(bsv.take(0) =~= Seq::<Seq<SpecError>>::empty());
    }
    let n = bs.len();
    let mut count: usize = 0;
    let mut i: usize = 0;
    while i < n
        invariant
            0 <= i <= n,
            count <= i,
            count == count_empty(bsv.take(i as int)),
        decreases n - i,
    {
        proof {
            let t = bsv.take(i + 1);
            assert(t.drop_last() =~= bsv.take(i as int));
        }
        if bs[i].is_empty() {
            count += 1;
        }
        i += 1;
    }
    proof {
        assert(bsv.take(n as int) =~= bsv);
    }
    count
}

/// Append every branch's failures, in branch order, consuming them.
#[verifier::loop_isolation(false)]
pub fn append_all(out: &mut Errors, bs: Vec<Errors>)
    ensures
        final(out)@ == old(out)@ + crate::errors::errslist_view(bs@).flatten(),
{
    let ghost orig = bs@;
    let ghost bsv = crate::errors::errslist_view(bs@);
    let ghost out0 = out@;
    proof {
        crate::errors::lemma_errslist_view(orig);
        assert(bsv.take(0) =~= Seq::<Seq<SpecError>>::empty());
        assert(Seq::<Seq<SpecError>>::empty().flatten() =~= Seq::<SpecError>::empty());
        assert(out@ =~= out0 + bsv.take(0).flatten());
    }
    let mut rest = bs;
    let ghost n = orig.len();
    let total: usize = rest.len();
    proof {
        assert(n == total as int);
    }
    let mut k: usize = 0;
    while rest.len() > 0
        invariant
            0 <= k <= n,
            n == total as int,
            k + rest@.len() == n,
            rest@ =~= orig.skip(k as int),
            out@ == out0 + bsv.take(k as int).flatten(),
        decreases rest@.len(),
    {
        proof {
            assert(rest@[0] == orig[k as int]);
        }
        let e = rest.remove(0);
        proof {
            assert(e@ == bsv[k as int]);
        }
        out.combine(e);
        proof {
            let t = bsv.take(k + 1);
            assert(t.drop_last() =~= bsv.take(k as int));
            bsv.take(k as int).lemma_flatten_push(bsv[k as int]);
            assert(t =~= bsv.take(k as int).push(bsv[k as int]));
            assert(rest@ =~= orig.skip(k + 1));
        }
        k += 1;
    }
    proof {
        assert(k == n);
        assert(bsv.take(n as int) =~= bsv);
    }
}

/// The failure sets of the branches that rejected the value, in branch
/// order, consuming them.
#[verifier::loop_isolation(false)]
pub fn collect_failing(bs: Vec<Errors>) -> (r: Vec<Errors>)
    ensures
        crate::errors::errslist_view(r@) == failing(crate::errors::errslist_view(bs@)),
{
    let ghost orig = bs@;
    let ghost bsv = crate::errors::errslist_view(bs@);
    proof {
        crate::errors::lemma_errslist_view(orig);
        assert(bsv.take(0) =~= Seq::<Seq<SpecError>>::empty());
    }
    let mut rest = bs;
    let ghost n = orig.len();
    let total: usize = rest.len();
    proof {
        assert(n == total as int);
    }
    let mut out: Vec<Errors> = Vec::new();
    let mut k: usize = 0;
    while rest.len() > 0
        invariant
            0 <= k <= n,
            n == total as int,
            k + rest@.len() == n,
            rest@ =~= orig.skip(k as int),
            crate::errors::errslist_view(out@) == failing(bsv.take(k as int)),
        decreases rest@.len(),
    {
        proof {
            assert(rest@[0] == orig[k as int]);
        }
        let e = rest.remove(0);
        proof {
            assert(e@ == bsv[k as int]);
            let t = bsv.take(k + 1);
            assert(t.drop_last() =~= bsv.take(k as int));
            assert(rest@ =~= orig.skip(k + 1));
        }
        if !e.is_empty() {
            proof {
                assert(out@.push(e).drop_last() =~= out@);
            }
            out.push(e);
        }
        k += 1;
    }
    proof {
        assert(k == n);
        assert(bsv.take(n as int) =~= bsv);
    }
    out
}

/// The provenance of the branches that accepted the value, in branch order.
#[verifier::loop_isolation(false)]
pub fn collect_matched_metas(list: &Vec<Schema>, bs: &Vec<Errors>) -> (r: Vec<Option<Metadata>>)
    requires
        list@.len() == bs@.len(),
    ensures
        crate::errors::metas_view(r@) == matched_metas(
            list@,
            crate::errors::errslist_view(bs@),
            list@.len() as int,
        ),
{
    let ghost bsv = crate::errors::errslist_view(bs@);
    proof {
        crate::errors::lemma_errslist_view(bs@);
    }
    let n = bs.len();
    let mut out: Vec<Option<Metadata>> = Vec::new();
    let mut i: usize = 0;
    while i < n
        invariant
            0 <= i <= n,
            crate::errors::metas_view(out@) == matched_metas(list@, bsv, i as int),
        decreases n - i,
    {
        if bs[i].is_empty() {
            let m = match &list[i] {
                Schema::Object(o) => dup_opt_meta(&o.metadata),
                Schema::Bool(_) => None,
            };
            proof {
                assert(out@.push(m).drop_last() =~= out@);
            }
            out.push(m);
        }
        i += 1;
    }
    out
}

/// Judge element `i` of a sequence: the schema for its position, then the
/// uniqueness constraint against the elements before it.
#[verifier::loop_isolation(false)]
pub fn validate_element(
    defs: &Vec<(String, Schema)>,
    obj: &SchemaObject,
    parent2: &Option<Keys>,
    items: &Vec<Value>,
    i: usize,
    fuel: u64,
) -> (r: Errors)
    requires
        i < items@.len(),
    ensures
        r@ == v_elem(
            defs@,
            *obj,
            opt_keys_view(*parent2),
            vviews(items@),
            i as int,
            fuel as nat,
        ),
    decreases fuel, crate::model::svs_height(vviews(items@)), *obj, 4int, 0int,
{
    let ghost m = vviews(items@);
    proof {
        lemma_vviews(items@);
        crate::model::lemma_svs_height(m);
    }
    match &obj.array {
        None => Errors::new(),
        Some(arr) => {
            let ivs: Option<Keys> = Some(one_seg(usize_to_string(i)));
            let none_span: Option<Keys> = None;
            let mut out = Errors::new();
            match &arr.items {
                Some(OneOrMany::One(s)) => {
                    proof {
                        assert(decreases_to!(*obj => *obj.array->0.items->0->One_0));
                    }
                    let e = validate_node(defs, s, parent2, &none_span, &ivs, &items[i], fuel);
                    out.combine(e);
                },
                Some(OneOrMany::Many(list)) => {
                    if i < list.len() {
                        proof {
                            assert(decreases_to!(*obj =>
                                obj.array->0.items->0->Many_0@[i as int]));
                        }
                        let e = validate_node(
                            defs,
                            &list[i],
                            parent2,
                            &none_span,
                            &ivs,
                            &items[i],
                            fuel,
                        );
                        out.combine(e);
                    } else {
                        match &arr.additional_items {
                            Some(a) => {
                                proof {
                                    assert(decreases_to!(*obj =>
                                        *obj.array->0.additional_items->0));
                                }
                                let e = validate_node(
                                    defs,
                                    a,
                                    parent2,
                                    &none_span,
                                    &ivs,
                                    &items[i],
                                    fuel,
                                );
                                out.combine(e);
                            },
                            None => {},
                        }
                    }
                },
                None => {},
            }
            match arr.unique_items {
                Some(true) => {
                    let mut k: usize = i;
                    let mut dup_idx: Option<usize> = None;
                    while k > 0 && dup_idx.is_none()
                        invariant
                            0 <= k <= i,
                            match dup_idx {
                                Some(d) => last_eq_upto(m, i as int, i as int) == Some(d as int),
                                None => last_eq_upto(m, i as int, i as int) == last_eq_upto(
                                    m,
                                    i as int,
                                    k as int,
                                ),
                            },
                        decreases k,
                            (if dup_idx is Some {
                                0int
                            } else {
                                1int
                            }),
                    {
                        if value_eq(&items[k - 1], &items[i]) {
                            dup_idx = Some(k - 1);
                        } else {
                            k -= 1;
                        }
                    }
                    match dup_idx {
                        Some(d) => {
                            let vsp = combined(parent2, &ivs);
                            let first = combined(
                                parent2,
                                &Some(one_seg(usize_to_string(d))),
                            );
                            out.push(
                                Error::new(
                                    dup_opt_meta(&obj.metadata),
                                    combined(parent2, &ivs),
                                    ErrorValue::NotUnique { first, duplicate: vsp },
                                ),
                            );
                        },
                        None => {},
                    }
                },
                _ => {},
            }
            proof {
                assert(out@ =~= v_elem(
                    defs@,
                    *obj,
                    opt_keys_view(*parent2),
                    m,
                    i as int,
                    fuel as nat,
                ));
            }
            out
        },
    }
}

/// The obligations reported when a sequence ends: containment, then the
/// smallest and largest allowed number of elements.
#[verifier::loop_isolation(false)]
pub fn validate_seq_end(
    defs: &Vec<(String, Schema)>,
    obj: &SchemaObject,
    parent2: &Option<Keys>,
    items: &Vec<Value>,
    fuel: u64,
) -> (r: Errors)
    ensures
        r@ == v_seq_end(defs@, *obj, opt_keys_view(*parent2), vviews(items@), fuel as nat),
    decreases fuel, crate::model::svs_height(vviews(items@)), *obj, 3int, 0int,
{
    let ghost m = vviews(items@);
    proof {
        lemma_vviews(items@);
        crate::model::lemma_svs_height(m);
    }
    match &obj.array {
        None => Errors::new(),
        Some(arr) => {
            let mut out = Errors::new();
            let n = items.len();
            match &arr.contains {
                Some(c) => {
                    let mut found = false;
                    let mut j: usize = 0;
                    let none_span: Option<Keys> = None;
                    while j < n
                        invariant
                            0 <= j <= n,
                            found == contains_sat(
                                defs@,
                                *obj,
                                opt_keys_view(*parent2),
                                m,
                                j as int,
                                fuel as nat,
                            ),
                        decreases n - j,
                    {
                        proof {
                            assert(decreases_to!(*obj => *obj.array->0.contains->0));
                        }
                        let jvs: Option<Keys> = Some(one_seg(usize_to_string(j)));
                        let e = validate_node(defs, c, parent2, &none_span, &jvs, &items[j], fuel);
                        if e.is_empty() {
                            found = true;
                        }
                        j += 1;
                    }
                    if !found {
                        let cm = match &**c {
                            Schema::Object(o) => dup_opt_meta(&o.metadata),
                            Schema::Bool(_) => None,
                        };
                        out.push(
                            Error::new(
                                dup_opt_meta(&obj.metadata),
                                None,
                                ErrorValue::MustContain { schema: cm },
                            ),
                        );
                    }
                },
                None => {},
            }
            match arr.min_items {
                Some(min) => {
                    if n < min as usize {
                        out.push(
                            Error::new(
                                dup_opt_meta(&obj.metadata),
                                None,
                                ErrorValue::NotEnoughItems { min: min as usize },
                            ),
                        );
                    }
                },
                None => {},
            }
            match arr.max_items {
                Some(max) => {
                    if n > max as usize {
                        out.push(
                            Error::new(
                                dup_opt_meta(&obj.metadata),
                                None,
                                ErrorValue::TooManyItems { max: max as usize },
                            ),
                        );
                    }
                },
                None => {},
            }
            proof {
                assert(out@ =~= v_seq_end(
                    defs@,
                    *obj,
                    opt_keys_view(*parent2),
                    m,
                    fuel as nat,
                ));
            }
            out
        },
    }
}

/// Judge a whole sequence against an object node.
#[verifier::loop_isolation(false)]
pub fn validate_seq_obj(
    defs: &Vec<(String, Schema)>,
    obj: &SchemaObject,
    lcombined: &Option<Keys>,
    items: &Vec<Value>,
    fuel: u64,
) -> (r: Errors)
    ensures
        r@ == v_seq_obj(defs@, *obj, opt_keys_view(*lcombined), vviews(items@), fuel as nat),
    decreases fuel, crate::model::svs_height(vviews(items@)), *obj, 6int, 0int,
{
    let ghost m = vviews(items@);
    proof {
        lemma_vviews(items@);
    }
    let terrs = check_type(obj, lcombined, InstanceType::Array);
    if !terrs.is_empty() {
        return terrs;
    }
    let n = items.len();
    let mut out = Errors::new();
    let mut i: usize = 0;
    while i < n
        invariant
            0 <= i <= n,
            out@ == v_elems(defs@, *obj, opt_keys_view(*lcombined), m, i as int, fuel as nat),
        decreases n - i,
    {
        let e = validate_element(defs, obj, lcombined, items, i, fuel);
        out.combine(e);
        i += 1;
    }
    let end = validate_seq_end(defs, obj, lcombined, items, fuel);
    out.combine(end);
    out
}

/// Judge a whole sequence against an arbitrary node.
pub fn validate_seq_any(
    defs: &Vec<(String, Schema)>,
    schema: &Schema,
    lcombined: &Option<Keys>,
    items: &Vec<Value>,
    fuel: u64,
) -> (r: Errors)
    ensures
        r@ == v_seq_any(defs@, *schema, opt_keys_view(*lcombined), vviews(items@), fuel as nat),
    decreases fuel, crate::model::svs_height(vviews(items@)), *schema, 7int, 0int,
{
    match schema {
        Schema::Bool(b) => {
            if *b {
                Errors::new()
            } else {
                Errors::one(
                    Error::new(None, dup_opt_keys(lcombined), ErrorValue::NotAllowed),
                )
            }
        },
        Schema::Object(obj) => validate_seq_obj(defs, obj, lcombined, items, fuel),
    }
}

/// Judge one key step of a map: a key with no string form is terminal, and
/// a key is validated against the node's name schema when it has one.
pub fn validate_key_step(
    defs: &Vec<(String, Schema)>,
    obj: &SchemaObject,
    parent2: &Option<Keys>,
    k: &Value,
    fuel: u64,
) -> (r: Errors)
    ensures
        r@ == key_step_errors(defs@, *obj, opt_keys_view(*parent2), k@, fuel as nat),
    decreases fuel, crate::model::sv_height(k@), *obj, 4int, 0int,
{
    match key_string(k) {
        None => Errors::one(
            Error::new(
                dup_opt_meta(&obj.metadata),
                Some(one_seg(String::from_str("???"))),
                ErrorValue::UnsupportedValue(UnsupportedValue::KeyNotString),
            ),
        ),
        Some(ks) => {
            match &obj.object {
                Some(ov) => {
                    match &ov.property_names {
                        Some(ns) => {
                            proof {
                                assert(decreases_to!(*obj => *obj.object->0.property_names->0));
                            }
                            let kv = Value::Str(ks.clone());
                            let sp: Option<Keys> = Some(one_seg(ks));
                            validate_node(defs, ns, parent2, &sp, &sp, &kv, fuel)
                        },
                        None => Errors::new(),
                    }
                },
                None => Errors::new(),
            }
        },
    }
}

/// Judge one value step of a map: the exact-name schema, else the first
/// matching pattern schema, else the schema for additional entries.
#[verifier::loop_isolation(false)]
pub fn validate_value_step(
    defs: &Vec<(String, Schema)>,
    obj: &SchemaObject,
    parent2: &Option<Keys>,
    ks: &String,
    val: &Value,
    fuel: u64,
) -> (r: Errors)
    ensures
        r@ == value_step_errors(defs@, *obj, opt_keys_view(*parent2), ks@, val@, fuel as nat),
    decreases fuel, crate::model::sv_height(val@), *obj, 4int, 0int,
{
    let ghost gp = opt_keys_view(*parent2);
    let none_span: Option<Keys> = None;
    match &obj.object {
        None => Errors::new(),
        Some(ov) => {
            let np = ov.properties.len();
            let mut k: usize = 0;
            while k < np
                invariant
                    0 <= k <= np,
                    value_prop_scan(defs@, *obj, gp, ks@, val@, 0, fuel as nat)
                        == value_prop_scan(defs@, *obj, gp, ks@, val@, k as int, fuel as nat),
                decreases np - k,
            {
                if ov.properties[k].0 == *ks {
                    proof {
                        assert(decreases_to!(*obj =>
                            obj.object->0.properties@[k as int].1));
                    }
                    let sp: Option<Keys> = Some(one_seg(ks.clone()));
                    return validate_node(
                        defs,
                        &ov.properties[k].1,
                        parent2,
                        &none_span,
                        &sp,
                        val,
                        fuel,
                    );
                }
                k += 1;
            }
            let npat = ov.pattern_properties.len();
            let mut t: usize = 0;
            while t < npat
                invariant
                    0 <= t <= npat,
                    value_prop_scan(defs@, *obj, gp, ks@, val@, 0, fuel as nat)
                        == value_pat_scan(defs@, *obj, gp, ks@, val@, t as int, fuel as nat),
                decreases npat - t,
            {
                match regex_match(&ov.pattern_properties[t].0, ks) {
                    None => {
                        return Errors::one(
                            Error::new(
                                dup_opt_meta(&obj.metadata),
                                Some(one_seg(ks.clone())),
                                ErrorValue::InvalidSchema(
                                    InvalidSchema::InvalidPattern {
                                        pattern: ov.pattern_properties[t].0.clone(),
                                    },
                                ),
                            ),
                        );
                    },
                    Some(true) => {
                        proof {
                            assert(decreases_to!(*obj =>
                                obj.object->0.pattern_properties@[t as int].1));
                        }
                        let sp: Option<Keys> = Some(one_seg(ks.clone()));
                        return validate_node(
                            defs,
                            &ov.pattern_properties[t].1,
                            parent2,
                            &none_span,
                            &sp,
                            val,
                            fuel,
                        );
                    },
                    Some(false) => {},
                }
                t += 1;
            }
            match &ov.additional_properties {
                Some(a) => {
                    proof {
                        assert(decreases_to!(*obj => *obj.object->0.additional_properties->0));
                    }
                    let sp: Option<Keys> = Some(one_seg(ks.clone()));
                    validate_node(defs, a, parent2, &none_span, &sp, val, fuel)
                },
                None => Errors::new(),
            }
        },
    }
}

/// Whether some entry's key has the given string form.
#[verifier::loop_isolation(false)]
pub fn entry_covers(entries: &Vec<(Value, Value)>, name: &String) -> (r: bool)
    ensures
        r == key_covered(crate::value::eviews(entries@), name@),
{
    let ghost ev = crate::value::eviews(entries@);
    proof {
        crate::value::lemma_eviews(entries@);
    }
    let n = entries.len();
    let mut j: usize = 0;
    while j < n
        invariant
            0 <= j <= n,
            forall|t: int| 0 <= t < j ==> key_string_spec((#[trigger] ev[t]).0) != Some(name@),
        decreases n - j,
    {
        match key_string(&entries[j].0) {
            Some(ks) => {
                if ks == *name {
                    return true;
                }
            },
            None => {},
        }
        j += 1;
    }
    false
}

/// The obligations reported when a map ends: the largest and smallest
/// allowed number of entries, then the required names no entry covered.
#[verifier::loop_isolation(false)]
pub fn validate_map_end(obj: &SchemaObject, entries: &Vec<(Value, Value)>) -> (r: Errors)
    ensures
        r@ == v_map_end(*obj, crate::value::eviews(entries@)),
{
    let ghost ev = crate::value::eviews(entries@);
    proof {
        crate::value::lemma_eviews(entries@);
    }
    match &obj.object {
        None => Errors::new(),
        Some(ov) => {
            let mut out = Errors::new();
            let n = entries.len();
            match ov.max_properties {
                Some(max) => {
                    if n > max as usize {
                        out.push(
                            Error::new(
                                dup_opt_meta(&obj.metadata),
                                None,
                                ErrorValue::TooManyProperties { max: max as usize },
                            ),
                        );
                    }
                },
                None => {},
            }
            match ov.min_properties {
                Some(min) => {
                    if n < min as usize {
                        out.push(
                            Error::new(
                                dup_opt_meta(&obj.metadata),
                                None,
                                ErrorValue::NotEnoughProperties { min: min as usize },
                            ),
                        );
                    }
                },
                None => {},
            }
            let ghost base = out@;
            let ghost req = ov.required@;
            proof {
                assert(req.take(0) =~= Seq::<String>::empty());
                assert(out@ =~= base + required_errors(*obj, req.take(0), ev));
            }
            let nr = ov.required.len();
            let mut r_i: usize = 0;
            while r_i < nr
                invariant
                    0 <= r_i <= nr,
                    out@ == base + required_errors(*obj, req.take(r_i as int), ev),
                decreases nr - r_i,
            {
                proof {
                    let t = req.take(r_i + 1);
                    assert(t.drop_last() =~= req.take(r_i as int));
                }
                let covered = entry_covers(entries, &ov.required[r_i]);
                if !covered {
                    out.push(
                        Error::new(
                            dup_opt_meta(&obj.metadata),
                            None,
                            ErrorValue::RequiredProperty { name: ov.required[r_i].clone() },
                        ),
                    );
                }
                r_i += 1;
            }
            proof {
                assert(req.take(nr as int) =~= req);
                assert(out@ =~= v_map_end(*obj, ev));
            }
            out
        },
    }
}

/// Judge a whole map against an object node: entries in order, a failing
/// key step cutting the walk short, the end obligations only after a
/// complete walk.
#[verifier::loop_isolation(false)]
pub fn validate_map_obj(
    defs: &Vec<(String, Schema)>,
    obj: &SchemaObject,
    lcombined: &Option<Keys>,
    entries: &Vec<(Value, Value)>,
    fuel: u64,
) -> (r: Errors)
    ensures
        r@ == v_map_obj(
            defs@,
            *obj,
            opt_keys_view(*lcombined),
            crate::value::eviews(entries@),
            fuel as nat,
        ),
    decreases fuel, crate::model::sve_height(crate::value::eviews(entries@)), *obj, 6int, 0int,
{
    let ghost ev = crate::value::eviews(entries@);
    let ghost gp = opt_keys_view(*lcombined);
    proof {
        crate::value::lemma_eviews(entries@);
        crate::model::lemma_sve_height(ev);
    }
    let terrs = check_type(obj, lcombined, InstanceType::Object);
    if !terrs.is_empty() {
        return terrs;
    }
    let n = entries.len();
    let mut out = Errors::new();
    let mut i: usize = 0;
    while i < n
        invariant
            0 <= i <= n,
            out@ == v_entries(defs@, *obj, gp, ev, i as int, fuel as nat),
            first_key_abort(defs@, *obj, gp, ev, 0, fuel as nat) == first_key_abort(
                defs@,
                *obj,
                gp,
                ev,
                i as int,
                fuel as nat,
            ),
        decreases n - i,
    {
        let kerrs = validate_key_step(defs, obj, lcombined, &entries[i].0, fuel);
        if !kerrs.is_empty() {
            proof {
                assert(first_key_abort(defs@, *obj, gp, ev, i as int, fuel as nat) == Some(
                    i as int,
                ));
            }
            out.combine(kerrs);
            return out;
        }
        let ks = match key_string(&entries[i].0) {
            Some(ks) => ks,
            None => {
                proof {
                    assert(false);
                }
                String::new()
            },
        };
        proof {
            assert(ev[i as int].1 == vview(entries@[i as int].1));
            assert(crate::model::sv_height(ev[i as int].1) <= crate::model::sve_height(ev));
        }
        let vstep = validate_value_step(defs, obj, lcombined, &ks, &entries[i].1, fuel);
        out.combine(vstep);
        i += 1;
    }
    proof {
        assert(first_key_abort(defs@, *obj, gp, ev, n as int, fuel as nat) is None);
    }
    let end = validate_map_end(obj, entries);
    out.combine(end);
    out
}

/// Judge a whole map against an arbitrary node.
pub fn validate_map_any(
    defs: &Vec<(String, Schema)>,
    schema: &Schema,
    lcombined: &Option<Keys>,
    entries: &Vec<(Value, Value)>,
    fuel: u64,
) -> (r: Errors)
    ensures
        r@ == v_map_any(
            defs@,
            *schema,
            opt_keys_view(*lcombined),
            crate::value::eviews(entries@),
            fuel as nat,
        ),
    decreases fuel, crate::model::sve_height(crate::value::eviews(entries@)), *schema, 7int, 0int,
{
    match schema {
        Schema::Bool(b) => {
            if *b {
                Errors::new()
            } else {
                Errors::one(
                    Error::new(None, dup_opt_keys(lcombined), ErrorValue::NotAllowed),
                )
            }
        },
        Schema::Object(obj) => validate_map_obj(defs, obj, lcombined, entries, fuel),
    }
}

/// Judge a tagged payload against the schema the tag resolved to.
pub fn validate_payload(
    defs: &Vec<(String, Schema)>,
    schema: &Schema,
    tcomb: &Option<Keys>,
    payload: &Value,
    fuel: u64,
) -> (r: Errors)
    ensures
        r@ == v_payload(defs@, *schema, opt_keys_view(*tcomb), payload@, fuel as nat),
    decreases fuel, 1 + crate::model::sv_height(payload@), *schema, 3int, 0int,
{
    match payload {
        Value::Array(items) => {
            proof {
                assert(payload@ == crate::value::SpecValue::Array(vviews(items@)));
            }
            validate_seq_any(defs, schema, tcomb, items, fuel)
        },
        Value::Object(entries) => {
            proof {
                assert(payload@ == crate::value::SpecValue::Object(
                    crate::value::eviews(entries@),
                ));
            }
            validate_map_any(defs, schema, tcomb, entries, fuel)
        },
        _ => Errors::new(),
    }
}

/// Judge an externally tagged variant with a collection payload: the node
/// must admit an object, the tag picks the governing sub-schema among the
/// node's properties, and an unmatched tag accepts everything below it.
#[verifier::loop_isolation(false)]
pub fn validate_tagged(
    defs: &Vec<(String, Schema)>,
    obj: &SchemaObject,
    lparent: &Option<Keys>,
    tag: &String,
    payload: &Value,
    fuel: u64,
) -> (r: Errors)
    ensures
        r@ == v_tagged(defs@, *obj, opt_keys_view(*lparent), tag@, payload@, fuel as nat),
    decreases fuel, 1 + crate::model::sv_height(payload@), *obj, 6int, 0int,
{
    let ghost gp = opt_keys_view(*lparent);
    let tag_span: Option<Keys> = Some(one_seg(tag.clone()));
    let tcomb = combined(lparent, &tag_span);
    proof {
        assert(opt_keys_view(tcomb) == crate::model::tcomb_of(gp, tag@));
    }
    let terrs = check_type(obj, &tcomb, InstanceType::Object);
    if !terrs.is_empty() {
        return terrs;
    }
    match &obj.object {
        None => Errors::new(),
        Some(ov) => {
            let np = ov.properties.len();
            let mut k: usize = 0;
            while k < np
                invariant
                    0 <= k <= np,
                    v_tag_props(defs@, *obj, gp, tag@, payload@, 0, fuel as nat) == v_tag_props(
                        defs@,
                        *obj,
                        gp,
                        tag@,
                        payload@,
                        k as int,
                        fuel as nat,
                    ),
                decreases np - k,
            {
                if ov.properties[k].0 == *tag {
                    proof {
                        assert(decreases_to!(*obj =>
                            obj.object->0.properties@[k as int].1));
                    }
                    return validate_payload(defs, &ov.properties[k].1, &tcomb, payload, fuel);
                }
                k += 1;
            }
            let npat = ov.pattern_properties.len();
            let mut t: usize = 0;
            while t < npat
                invariant
                    0 <= t <= npat,
                    v_tag_props(defs@, *obj, gp, tag@, payload@, 0, fuel as nat) == v_tag_scan(
                        defs@,
                        *obj,
                        gp,
                        tag@,
                        payload@,
                        t as int,
                        fuel as nat,
                    ),
                decreases npat - t,
            {
                match regex_match(&ov.pattern_properties[t].0, tag) {
                    None => {
                        return Errors::one(
                            Error::new(
                                dup_opt_meta(&obj.metadata),
                                tcomb,
                                ErrorValue::InvalidSchema(
                                    InvalidSchema::InvalidPattern {
                                        pattern: ov.pattern_properties[t].0.clone(),
                                    },
                                ),
                            ),
                        );
                    },
                    Some(true) => {
                        proof {
                            assert(decreases_to!(*obj =>
                                obj.object->0.pattern_properties@[t as int].1));
                        }
                        return validate_payload(
                            defs,
                            &ov.pattern_properties[t].1,
                            &tcomb,
                            payload,
                            fuel,
                        );
                    },
                    Some(false) => {},
                }
                t += 1;
            }
            match &ov.additional_properties {
                Some(a) => {
                    proof {
                        assert(decreases_to!(*obj => *obj.object->0.additional_properties->0));
                    }
                    validate_payload(defs, a, &tcomb, payload, fuel)
                },
                None => Errors::new(),
            }
        },
    }
}

/// Drive a value through the leaf checks of a node; a value with no
/// location of its own resets the inherited location first.
pub fn validate_leaf(
    defs: &Vec<(String, Schema)>,
    obj: &SchemaObject,
    parent: &Option<Keys>,
    vspan: &Option<Keys>,
    v: &Value,
    fuel: u64,
) -> (r: Errors)
    ensures
        r@ == v_leaf(
            defs@,
            *obj,
            opt_keys_view(*parent),
            opt_keys_view(*vspan),
            v@,
            fuel as nat,
        ),
    decreases fuel, crate::model::sv_height(v@), *obj, 7int, 0int,
{
    let lparent: Option<Keys> = if vspan.is_some() {
        dup_opt_keys(parent)
    } else {
        None
    };
    let lcombined: Option<Keys> = if vspan.is_some() {
        combined(parent, vspan)
    } else {
        None
    };
    match v {
        Value::Array(items) => {
            proof {
                assert(v@ == crate::value::SpecValue::Array(vviews(items@)));
            }
            validate_seq_obj(defs, obj, &lcombined, items, fuel)
        },
        Value::Object(entries) => {
            proof {
                assert(v@ == crate::value::SpecValue::Object(crate::value::eviews(entries@)));
            }
            validate_map_obj(defs, obj, &lcombined, entries, fuel)
        },
        Value::Tagged(tag, payload) => {
            let is_collection = match &**payload {
                Value::Array(_) => true,
                Value::Object(_) => true,
                _ => false,
            };
            if is_collection {
                validate_tagged(defs, obj, &lparent, tag, payload, fuel)
            } else {
                let kv = Value::Str(tag.clone());
                let pv = value_clone(payload);
                let mut entries2: Vec<(Value, Value)> = Vec::new();
                proof {
                    assert(vview(kv) == crate::value::SpecValue::Str(tag@));
                    assert(vview(pv) == vview(**payload));
                }
                entries2.push((kv, pv));
                proof {
                    let single = crate::value::eviews(entries2@);
                    assert(entries2@.len() == 1);
                    assert(entries2@.drop_last() =~= Seq::<(Value, Value)>::empty());
                    assert(crate::value::eviews(Seq::<(Value, Value)>::empty()) =~= Seq::<
                        (crate::value::SpecValue, crate::value::SpecValue),
                    >::empty());
                    assert(vview(entries2@.last().0) == crate::value::SpecValue::Str(tag@));
                    assert(vview(entries2@.last().1) == vview(**payload));
                    assert(single =~= seq![
                        (crate::value::SpecValue::Str(tag@), vview(**payload)),
                    ]);
                    assert(single.drop_last() =~= Seq::<
                        (crate::value::SpecValue, crate::value::SpecValue),
                    >::empty());
                    assert(crate::model::sve_height(single.drop_last()) == 0);
                    assert(crate::model::sv_height(single.last().0) == 0);
                    assert(crate::model::sve_height(single) <= crate::model::sv_height(
                        vview(**payload),
                    ));
                    assert(crate::model::sv_height(v@) == 1 + crate::model::sv_height(
                        vview(**payload),
                    ));
                }
                validate_map_obj(defs, obj, &lcombined, &entries2, fuel)
            }
        },
        _ => validate_prim(obj, &lcombined, v),
    }
}

/// Take an object node apart: resolve a reference, run the combinators, and
/// drive the value through the leaf checks when the node declares a type.
pub fn validate_obj(
    defs: &Vec<(String, Schema)>,
    obj: &SchemaObject,
    parent: &Option<Keys>,
    cspan: &Option<Keys>,
    vspan: &Option<Keys>,
    v: &Value,
    fuel: u64,
) -> (r: Errors)
    ensures
        r@ == v_obj(
            defs@,
            *obj,
            opt_keys_view(*parent),
            opt_keys_view(*cspan),
            opt_keys_view(*vspan),
            v@,
            fuel as nat,
        ),
    decreases fuel, crate::model::sv_height(v@), *obj, 9int, 0int,
{
    match &obj.reference {
        Some(r) => {
            let combined_span = combined(parent, cspan);
            let value_span: Option<Keys> = if vspan.is_some() {
                combined(&combined_span, vspan)
            } else {
                None
            };
            match local_definition(r) {
                Some(name) => {
                    match lookup_def(defs, &name) {
                        Some(target) => {
                            if fuel == 0 {
                                Errors::one(
                                    Error::new(
                                        dup_opt_meta(&obj.metadata),
                                        value_span,
                                        ErrorValue::Custom(
                                            String::from_str("recursion depth limit reached"),
                                        ),
                                    ),
                                )
                            } else {
                                validate_node(defs, target, parent, vspan, vspan, v, fuel - 1)
                            }
                        },
                        None => Errors::one(
                            Error::new(
                                dup_opt_meta(&obj.metadata),
                                value_span,
                                ErrorValue::InvalidSchema(InvalidSchema::MissingDefinition(name)),
                            ),
                        ),
                    }
                },
                None => Errors::one(
                    Error::new(
                        dup_opt_meta(&obj.metadata),
                        value_span,
                        ErrorValue::InvalidSchema(InvalidSchema::ExternalReference(r.clone())),
                    ),
                ),
            }
        },
        None => {
            let mut out = validate_subschemas(defs, obj, parent, cspan, vspan, v, fuel);
            if obj.instance_type.is_some() {
                let leaf = validate_leaf(defs, obj, parent, vspan, v, fuel);
                out.combine(leaf);
            }
            out
        },
    }
}

/// Judge one node on one value: an always-accept leaf has no failures, an
/// always-reject leaf has one, and an object node is taken apart.
pub fn validate_node(
    defs: &Vec<(String, Schema)>,
    schema: &Schema,
    parent: &Option<Keys>,
    cspan: &Option<Keys>,
    vspan: &Option<Keys>,
    v: &Value,
    fuel: u64,
) -> (r: Errors)
    ensures
        r@ == v_node(
            defs@,
            *schema,
            opt_keys_view(*parent),
            opt_keys_view(*cspan),
            opt_keys_view(*vspan),
            v@,
            fuel as nat,
        ),
    decreases fuel, crate::model::sv_height(v@), *schema, 10int, 0int,
{
    match schema {
        Schema::Bool(b) => {
            if *b {
                Errors::new()
            } else {
                Errors::one(
                    Error::new(None, combined(parent, cspan), ErrorValue::NotAllowed),
                )
            }
        },
        Schema::Object(obj) => validate_obj(defs, obj, parent, cspan, vspan, v, fuel),
    }
}

} // verus!
