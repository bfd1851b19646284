//! The concrete tree of values the library validates: booleans, integers,
//! strings, the absent value, sequences, maps with arbitrary keys, and
//! externally tagged variants whose payload is a sequence or a map.

use vstd::prelude::*;

verus! {

/// A value to be validated.
#[derive(Debug)]
pub enum Value {
    /// A boolean.
    Bool(bool),
    /// An integer.
    Int(i64),
    /// A text string.
    Str(String),
    /// The absent value: an empty option, a unit.
    Null,
    /// An ordered sequence of values.
    Array(Vec<Value>),
    /// An ordered sequence of key-value entries.
    Object(Vec<(Value, Value)>),
    /// An externally tagged variant: the case name and its payload, which is
    /// itself a sequence or a map.
    Tagged(String, Box<Value>),
}

/// The mathematical value of a [`Value`]: the same tree with every string a
/// sequence of characters and every integer unbounded.
pub enum SpecValue {
    Bool(bool),
    Int(int),
    Str(Seq<char>),
    Null,
    Array(Seq<SpecValue>),
    Object(Seq<(SpecValue, SpecValue)>),
    Tagged(Seq<char>, Box<SpecValue>),
}

/// The model of a value.
pub open spec fn vview(v: Value) -> SpecValue
    decreases v,
{
    match v {
        Value::Bool(b) => SpecValue::Bool(b),
        Value::Int(i) => SpecValue::Int(i as int),
        Value::Str(s) => SpecValue::Str(s@),
        Value::Null => SpecValue::Null,
        Value::Array(items) => SpecValue::Array(vviews(items@)),
        Value::Object(entries) => SpecValue::Object(eviews(entries@)),
        Value::Tagged(tag, payload) => SpecValue::Tagged(tag@, Box::new(vview(*payload))),
    }
}

/// The models of a sequence of values, in order.
pub open spec fn vviews(s: Seq<Value>) -> Seq<SpecValue>
    decreases s,
{
    if s.len() == 0 {
        Seq::empty()
    } else {
        vviews(s.drop_last()).push(vview(s.last()))
    }
}

/// The models of a sequence of entries, in order.
pub open spec fn eviews(s: Seq<(Value, Value)>) -> Seq<(SpecValue, SpecValue)>
    decreases s,
{
    if s.len() == 0 {
        Seq::empty()
    } else {
        eviews(s.drop_last()).push((vview(s.last().0), vview(s.last().1)))
    }
}

impl View for Value {
    type V = SpecValue;

    open spec fn view(&self) -> SpecValue {
        vview(*self)
    }
}

/// `vviews` maps each element to its model.
pub proof fn lemma_vviews(s: Seq<Value>)
    ensures
        vviews(s).len() == s.len(),
        forall|i: int| 0 <= i < s.len() ==> vviews(s)[i] == vview(#[trigger] s[i]),
    decreases s.len(),
{
    if s.len() > 0 {
        lemma_vviews(s.drop_last());
        assert forall|i: int| 0 <= i < s.len() implies vviews(s)[i] == vview(#[trigger] s[i]) by {
            if i < s.len() - 1 {
                assert(s.drop_last()[i] == s[i]);
                assert(vviews(s)[i] == vviews(s.drop_last())[i]);
            } else {
                assert(vviews(s)[i] == vview(s.last()));
            }
        }
    }
}

/// `eviews` maps each entry to the models of its key and value.
pub proof fn lemma_eviews(s: Seq<(Value, Value)>)
    ensures
        eviews(s).len() == s.len(),
        forall|i: int|
            0 <= i < s.len() ==> eviews(s)[i] == (
                vview(#[trigger] s[i].0),
                vview(s[i].1),
            ),
    decreases s.len(),
{
    if s.len() > 0 {
        lemma_eviews(s.drop_last());
        assert forall|i: int|
            0 <= i < s.len() implies eviews(s)[i] == (
            vview(#[trigger] s[i].0),
            vview(s[i].1),
        ) by {
            if i < s.len() - 1 {
                assert(s.drop_last()[i] == s[i]);
                assert(eviews(s)[i] == eviews(s.drop_last())[i]);
            } else {
                assert(eviews(s)[i] == (vview(s.last().0), vview(s.last().1)));
            }
        }
    }
}

/// Decide whether two values are the same, segment by segment and element by
/// element.
#[verifier::loop_isolation(false)]
pub fn value_eq(a: &Value, b: &Value) -> (r: bool)
    ensures
        r == (a@ == b@),
    decreases *a,
{
    match a {
        Value::Bool(x) => match b {
            Value::Bool(y) => *x == *y,
            _ => false,
        },
        Value::Int(x) => match b {
            Value::Int(y) => *x == *y,
            _ => false,
        },
        Value::Str(x) => match b {
            Value::Str(y) => *x == *y,
            _ => false,
        },
        Value::Null => match b {
            Value::Null => true,
            _ => false,
        },
        Value::Array(xs) => match b {
            Value::Array(ys) => {
                proof {
                    lemma_vviews(xs@);
                    lemma_vviews(ys@);
                }
                if xs.len() != ys.len() {
                    return false;
                }
                let n = xs.len();
                let mut i: usize = 0;
                while i < n
                    invariant
                        0 <= i <= n,
                        forall|j: int| 0 <= j < i ==> vview(#[trigger] xs@[j]) == vview(ys@[j]),
                    decreases n - i,
                {
                    proof {
                        assert(decreases_to!(*a => a->Array_0@[i as int]));
                    }
                    if !value_eq(&xs[i], &ys[i]) {
                        proof {
                            assert(vviews(xs@)[i as int] != vviews(ys@)[i as int]);
                        }
                        return false;
                    }
                    i += 1;
                }
                proof {
                    assert forall|j: int| 0 <= j < n implies vviews(xs@)[j] == vviews(ys@)[j] by {
                        assert(vview(xs@[j]) == vview(ys@[j]));
                    }
                    assert(vviews(xs@) =~= vviews(ys@));
                }
                true
            },
            _ => false,
        },
        Value::Object(xs) => match b {
            Value::Object(ys) => {
                proof {
                    lemma_eviews(xs@);
                    lemma_eviews(ys@);
                }
                if xs.len() != ys.len() {
                    return false;
                }
                let n = xs.len();
                let mut i: usize = 0;
                while i < n
                    invariant
                        0 <= i <= n,
                        forall|j: int|
                            0 <= j < i ==> vview(#[trigger] xs@[j].0) == vview(ys@[j].0) && vview(
                                xs@[j].1,
                            ) == vview(ys@[j].1),
                    decreases n - i,
                {
                    proof {
                        assert(decreases_to!(*a => a->Object_0@[i as int].0));
                        assert(decreases_to!(*a => a->Object_0@[i as int].1));
                    }
                    if !value_eq(&xs[i].0, &ys[i].0) {
                        proof {
                            assert(eviews(xs@)[i as int] != eviews(ys@)[i as int]);
                        }
                        return false;
                    }
                    if !value_eq(&xs[i].1, &ys[i].1) {
                        proof {
                            assert(eviews(xs@)[i as int] != eviews(ys@)[i as int]);
                        }
                        return false;
                    }
                    i += 1;
                }
                proof {
                    assert forall|j: int| 0 <= j < n implies eviews(xs@)[j] == eviews(ys@)[j] by {
                        assert(vview(xs@[j].0) == vview(ys@[j].0));
                        assert(vview(xs@[j].1) == vview(ys@[j].1));
                    }
                    assert(eviews(xs@) =~= eviews(ys@));
                }
                true
            },
            _ => false,
        },
        Value::Tagged(xt, xp) => match b {
            Value::Tagged(yt, yp) => {
                proof {
                    assert(a@ == SpecValue::Tagged(xt@, Box::new(vview(**xp))));
                    assert(b@ == SpecValue::Tagged(yt@, Box::new(vview(**yp))));
                }
                if !(*xt == *yt) {
                    return false;
                }
                value_eq(xp, yp)
            },
            _ => false,
        },
    }
}

/// A copy of a value, element by element.
#[verifier::loop_isolation(false)]
pub fn value_clone(v: &Value) -> (r: Value)
    ensures
        r@ == v@,
    decreases *v,
{
    match v {
        Value::Bool(b) => Value::Bool(*b),
        Value::Int(i) => Value::Int(*i),
        Value::Str(s) => Value::Str(s.clone()),
        Value::Null => Value::Null,
        Value::Array(items) => {
            let n = items.len();
            let mut out: Vec<Value> = Vec::with_capacity(n);
            let mut i: usize = 0;
            while i < n
                invariant
                    n == items@.len(),
                    0 <= i <= n,
                    out@.len() == i,
                    forall|j: int| 0 <= j < i ==> vview(#[trigger] out@[j]) == vview(items@[j]),
                decreases n - i,
            {
                proof {
                    assert(decreases_to!(*v => v->Array_0@[i as int]));
                }
                let c = value_clone(&items[i]);
                out.push(c);
                i += 1;
            }
            proof {
                lemma_vviews(items@);
                lemma_vviews(out@);
                assert forall|j: int| 0 <= j < n implies vviews(out@)[j] == vviews(items@)[j] by {
                    assert(vview(out@[j]) == vview(items@[j]));
                }
                assert(vviews(out@) =~= vviews(items@));
            }
            Value::Array(out)
        },
        Value::Object(entries) => {
            let n = entries.len();
            let mut out: Vec<(Value, Value)> = Vec::with_capacity(n);
            let mut i: usize = 0;
            while i < n
                invariant
                    n == entries@.len(),
                    0 <= i <= n,
                    out@.len() == i,
                    forall|j: int|
                        0 <= j < i ==> vview(#[trigger] out@[j].0) == vview(entries@[j].0) && vview(
                            out@[j].1,
                        ) == vview(entries@[j].1),
                decreases n - i,
            {
                proof {
                    assert(decreases_to!(*v => v->Object_0@[i as int].0));
                    assert(decreases_to!(*v => v->Object_0@[i as int].1));
                }
                let k = value_clone(&entries[i].0);
                let val = value_clone(&entries[i].1);
                out.push((k, val));
                i += 1;
            }
            proof {
                lemma_eviews(entries@);
                lemma_eviews(out@);
                assert forall|j: int| 0 <= j < n implies eviews(out@)[j] == eviews(entries@)[j] by {
                    assert(vview(out@[j].0) == vview(entries@[j].0));
                    assert(vview(out@[j].1) == vview(entries@[j].1));
                }
                assert(eviews(out@) =~= eviews(entries@));
            }
            Value::Object(out)
        },
        Value::Tagged(tag, payload) => {
            let p = value_clone(payload);
            Value::Tagged(tag.clone(), Box::new(p))
        },
    }
}

} // verus!
