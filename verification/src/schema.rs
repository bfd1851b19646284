//! The in-memory schema document tree: a root with a definitions table, and
//! nodes that are either boolean leaves or objects carrying independent
//! constraint groups, combinators and references.
//!
//! The engine only ever borrows a document; nothing here is mutated during
//! validation.

use vstd::prelude::*;

use crate::value::Value;

verus! {

/// Human-readable provenance of a schema node, carried into errors.
#[derive(Debug)]
pub struct Metadata {
    /// The node's title.
    pub title: Option<String>,
    /// The node's description.
    pub description: Option<String>,
}

/// The model of a node's provenance.
pub struct SpecMeta {
    pub title: Option<Seq<char>>,
    pub description: Option<Seq<char>>,
}

/// The model of an optional string.
pub open spec fn opt_str_view(s: Option<String>) -> Option<Seq<char>> {
    match s {
        Some(x) => Some(x@),
        None => None,
    }
}

impl View for Metadata {
    type V = SpecMeta;

    open spec fn view(&self) -> SpecMeta {
        SpecMeta { title: opt_str_view(self.title), description: opt_str_view(self.description) }
    }
}

/// The model of an optional provenance.
pub open spec fn opt_meta_view(m: Option<Metadata>) -> Option<SpecMeta> {
    match m {
        Some(x) => Some(x@),
        None => None,
    }
}

/// A copy of an optional provenance.
pub fn dup_opt_meta(m: &Option<Metadata>) -> (r: Option<Metadata>)
    ensures
        opt_meta_view(r) == opt_meta_view(*m),
{
    match m {
        Some(x) => Some(
            Metadata {
                title: match &x.title {
                    Some(t) => Some(t.clone()),
                    None => None,
                },
                description: match &x.description {
                    Some(d) => Some(d.clone()),
                    None => None,
                },
            },
        ),
        None => None,
    }
}

/// The instance types a schema node can declare.
#[derive(Debug, PartialEq, Eq, Structural, Clone, Copy)]
pub enum InstanceType {
    Null,
    Boolean,
    Object,
    Array,
    Number,
    Str,
    Integer,
}

/// One declared item, or an alternative list of them.
#[derive(Debug)]
pub enum OneOrMany<T> {
    One(Box<T>),
    Many(Vec<T>),
}

/// The model of a declared instance-type constraint.
pub enum SpecTypes {
    One(InstanceType),
    Many(Seq<InstanceType>),
}

/// The model of an instance-type constraint.
pub open spec fn types_view(t: OneOrMany<InstanceType>) -> SpecTypes {
    match t {
        OneOrMany::One(x) => SpecTypes::One(*x),
        OneOrMany::Many(xs) => SpecTypes::Many(xs@),
    }
}

/// A copy of an instance-type constraint.
pub fn dup_types(t: &OneOrMany<InstanceType>) -> (r: OneOrMany<InstanceType>)
    ensures
        types_view(r) == types_view(*t),
{
    match t {
        OneOrMany::One(x) => OneOrMany::One(Box::new(**x)),
        OneOrMany::Many(xs) => {
            let mut out: Vec<InstanceType> = Vec::new();
            let n = xs.len();
            let mut i: usize = 0;
            while i < n
                invariant
                    n == xs@.len(),
                    0 <= i <= n,
                    out@.len() == i,
                    forall|j: int| 0 <= j < i ==> out@[j] == xs@[j],
                decreases n - i,
            {
                out.push(xs[i]);
                i += 1;
            }
            proof {
                assert(out@ =~= xs@);
            }
            OneOrMany::Many(out)
        },
    }
}

/// Constraints on numbers.
#[derive(Debug)]
pub struct NumberValidation {
    /// The value must be divisible by this.
    pub multiple_of: Option<i64>,
    /// The value must not be below this bound.
    pub minimum: Option<i64>,
    /// Whether the lower bound itself is excluded.
    pub exclusive_minimum: Option<bool>,
    /// The value must not be above this bound.
    pub maximum: Option<i64>,
    /// Whether the upper bound itself is excluded.
    pub exclusive_maximum: Option<bool>,
}

/// Constraints on strings.
#[derive(Debug)]
pub struct StringValidation {
    /// The largest allowed number of characters.
    pub max_length: Option<u32>,
    /// The smallest allowed number of characters.
    pub min_length: Option<u32>,
    /// A regular expression the string must match.
    pub pattern: Option<String>,
}

/// Constraints on sequences.
#[derive(Debug)]
pub struct ArrayValidation {
    /// A schema for every element, or one schema per position.
    pub items: Option<OneOrMany<Schema>>,
    /// The schema for positions beyond a positional list.
    pub additional_items: Option<Box<Schema>>,
    /// The largest allowed number of elements.
    pub max_items: Option<u32>,
    /// The smallest allowed number of elements.
    pub min_items: Option<u32>,
    /// Whether all elements must differ from one another.
    pub unique_items: Option<bool>,
    /// A schema at least one element must satisfy.
    pub contains: Option<Box<Schema>>,
}

/// Constraints on maps.
#[derive(Debug)]
pub struct ObjectValidation {
    /// The largest allowed number of entries.
    pub max_properties: Option<u32>,
    /// The smallest allowed number of entries.
    pub min_properties: Option<u32>,
    /// Names of entries that must be present.
    pub required: Vec<String>,
    /// Schemas for entries by exact name.
    pub properties: Vec<(String, Schema)>,
    /// Schemas for entries whose name matches a pattern, tried in order.
    pub pattern_properties: Vec<(String, Schema)>,
    /// The schema for entries no name or pattern covers.
    pub additional_properties: Option<Box<Schema>>,
    /// A schema every entry name must satisfy.
    pub property_names: Option<Box<Schema>>,
}

/// Combinators over sub-schemas.
#[derive(Debug)]
pub struct SubschemaValidation {
    /// The value must satisfy every listed schema.
    pub all_of: Option<Vec<Schema>>,
    /// The value must satisfy at least one listed schema.
    pub any_of: Option<Vec<Schema>>,
    /// The value must satisfy exactly one listed schema.
    pub one_of: Option<Vec<Schema>>,
    /// The value must not satisfy this schema.
    pub not: Option<Box<Schema>>,
    /// The condition of a conditional pair.
    pub if_schema: Option<Box<Schema>>,
    /// Applied when the condition holds.
    pub then_schema: Option<Box<Schema>>,
    /// Applied when the condition fails.
    pub else_schema: Option<Box<Schema>>,
}

/// A schema node that is an object: any subset of the constraint groups may
/// be present.
#[derive(Debug)]
pub struct SchemaObject {
    /// Title and description, carried into errors.
    pub metadata: Option<Metadata>,
    /// The declared instance type or types.
    pub instance_type: Option<OneOrMany<InstanceType>>,
    /// Literal values the instance must equal one of.
    pub enum_values: Option<Vec<Value>>,
    /// Constraints on numbers.
    pub number: Option<NumberValidation>,
    /// Constraints on strings.
    pub string: Option<StringValidation>,
    /// Constraints on sequences.
    pub array: Option<ArrayValidation>,
    /// Constraints on maps.
    pub object: Option<ObjectValidation>,
    /// Combinators over sub-schemas.
    pub subschemas: Option<SubschemaValidation>,
    /// A reference to another schema.
    pub reference: Option<String>,
}

impl SchemaObject {
    /// A node with no constraints at all: it accepts everything.
    pub fn new() -> (r: SchemaObject)
        ensures
            r.metadata is None,
            r.instance_type is None,
            r.enum_values is None,
            r.number is None,
            r.string is None,
            r.array is None,
            r.object is None,
            r.subschemas is None,
            r.reference is None,
    {
        SchemaObject {
            metadata: None,
            instance_type: None,
            enum_values: None,
            number: None,
            string: None,
            array: None,
            object: None,
            subschemas: None,
            reference: None,
        }
    }
}

/// A schema node: a boolean leaf that accepts or rejects everything, or an
/// object of constraints.
#[derive(Debug)]
pub enum Schema {
    /// `true` accepts every value; `false` rejects every value.
    Bool(bool),
    /// A node carrying constraint groups.
    Object(SchemaObject),
}

/// A whole schema document: local definitions and the root node.
#[derive(Debug)]
pub struct RootSchema {
    /// The name-to-node table local references resolve in.
    pub definitions: Vec<(String, Schema)>,
    /// The root node.
    pub schema: SchemaObject,
}

/// The first node under `name` in the definitions table, if any.
pub open spec fn lookup_def_spec(defs: Seq<(String, Schema)>, name: Seq<char>) -> Option<Schema>
    decreases defs.len(),
{
    if defs.len() == 0 {
        None
    } else if defs[0].0@ == name {
        Some(defs[0].1)
    } else {
        lookup_def_spec(defs.drop_first(), name)
    }
}

/// Dropping a prefix that holds no match leaves the lookup unchanged.
pub proof fn lemma_lookup_skip(defs: Seq<(String, Schema)>, name: Seq<char>, i: int)
    requires
        0 <= i <= defs.len(),
        forall|j: int| 0 <= j < i ==> (#[trigger] defs[j].0)@ != name,
    ensures
        lookup_def_spec(defs, name) == lookup_def_spec(defs.skip(i), name),
    decreases i,
{
    if i > 0 {
        assert forall|j: int| 0 <= j < i - 1 implies (#[trigger] defs.drop_first()[j].0)@
            != name by {
            assert(defs.drop_first()[j] == defs[j + 1]);
        }
        lemma_lookup_skip(defs.drop_first(), name, i - 1);
        assert(defs.drop_first().skip(i - 1) =~= defs.skip(i));
        assert(defs[0].0@ != name);
    } else {
        assert(defs.skip(0) =~= defs);
    }
}

/// Find the first definition under `name`, scanning the table in order.
#[verifier::loop_isolation(false)]
pub fn lookup_def<'a>(defs: &'a Vec<(String, Schema)>, name: &String) -> (r: Option<&'a Schema>)
    ensures
        match r {
            Some(s) => lookup_def_spec(defs@, name@) == Some(*s),
            None => lookup_def_spec(defs@, name@) is None,
        },
{
    let n = defs.len();
    let mut i: usize = 0;
    while i < n
        invariant
            0 <= i <= n,
            forall|j: int| 0 <= j < i ==> (#[trigger] defs@[j].0)@ != name@,
        decreases n - i,
    {
        if defs[i].0 == *name {
            proof {
                lemma_lookup_skip(defs@, name@, i as int);
                assert(defs@.skip(i as int)[0] == defs@[i as int]);
            }
            return Some(&defs[i].1);
        }
        i += 1;
    }
    proof {
        lemma_lookup_skip(defs@, name@, n as int);
        assert(defs@.skip(n as int) =~= Seq::<(String, Schema)>::empty());
    }
    None
}

/// The name under the local-definition prefix, when the reference starts
/// with `#/definitions/`; otherwise nothing, and the reference is external.
pub open spec fn local_definition_spec(path: Seq<char>) -> Option<Seq<char>> {
    if path.len() >= 14 && path.subrange(0, 14) == "#/definitions/"@ {
        Some(path.skip(14))
    } else {
        None
    }
}

/// Split a reference into the name of the local definition it points at, if
/// it is local.
#[verifier::loop_isolation(false)]
pub fn local_definition(path: &String) -> (r: Option<String>)
    ensures
        opt_str_view(r) == local_definition_spec(path@),
{
    proof {
        reveal_strlit("#/definitions/");
    }
    let prefix = "#/definitions/";
    let plen = path.as_str().unicode_len();
    if plen < 14 {
        proof {
            assert(local_definition_spec(path@) is None);
        }
        return None;
    }
    let mut i: usize = 0;
    while i < 14
        invariant
            0 <= i <= 14,
            plen == path@.len() >= 14,
            forall|j: int| 0 <= j < i ==> path@[j] == "#/definitions/"@[j],
        decreases 14 - i,
    {
        if path.as_str().get_char(i) != prefix.get_char(i) {
            proof {
                assert(path@.subrange(0, 14) != "#/definitions/"@);
            }
            return None;
        }
        i += 1;
    }
    proof {
        assert(path@.subrange(0, 14) =~= "#/definitions/"@);
    }
    let rest = path.as_str().substring_char(14, plen);
    let out = String::from_str(rest);
    proof {
        assert(out@ =~= path@.skip(14));
    }
    Some(out)
}

} // verus!
