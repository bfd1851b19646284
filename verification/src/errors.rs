//! Structured validation failures and the ordered aggregate they are
//! collected in. Emptiness of the aggregate is the sole success signal;
//! combination is concatenation in discovery order.

use vstd::prelude::*;

use crate::schema::{opt_meta_view, InstanceType, Metadata, OneOrMany, SpecMeta, SpecTypes, types_view};
use crate::span::{opt_keys_view, Keys, SegSeq};
use crate::value::{lemma_vviews, vview, vviews, SpecValue, Value};

verus! {

/// A value that cannot be validated by a schema at all.
#[derive(Debug)]
pub enum UnsupportedValue {
    /// A map key is not a string and has no string form.
    KeyNotString,
}

/// A defect of the schema document itself.
#[derive(Debug)]
pub enum InvalidSchema {
    /// A local reference names no definition.
    MissingDefinition(String),
    /// A regular expression in the document does not compile.
    InvalidPattern { pattern: String },
    /// A reference leads outside the document.
    ExternalReference(String),
}

/// One validation failure.
#[derive(Debug)]
pub struct Error {
    /// Title and description of the schema node that raised the failure.
    pub meta: Option<Metadata>,
    /// Where in the traversed value the failure lies.
    pub span: Option<Keys>,
    /// What went wrong.
    pub value: ErrorValue,
}

/// The kinds of validation failure.
#[derive(Debug)]
pub enum ErrorValue {
    /// An always-reject schema was matched.
    NotAllowed,
    /// The schema document itself is defective.
    InvalidSchema(InvalidSchema),
    /// The value cannot be validated by any schema.
    UnsupportedValue(UnsupportedValue),
    /// The value's type is not among the declared ones.
    InvalidType { expected: OneOrMany<InstanceType> },
    /// The value is not among the declared literals.
    InvalidEnumValue { expected: Vec<Value> },
    /// The number is not divisible by the declared divisor.
    NotMultipleOf { multiple_of: i64 },
    /// The number lies below the declared minimum.
    LessThanExpected { min: i64, exclusive: bool },
    /// The number lies above the declared maximum.
    MoreThanExpected { max: i64, exclusive: bool },
    /// The string does not match the declared pattern.
    NoPatternMatch { pattern: String },
    /// The string has more characters than allowed.
    TooLong { max_length: u32 },
    /// The string has fewer characters than allowed.
    TooShort { min_length: u32 },
    /// No branch of a combinator accepted the value; the failures of each
    /// failing branch are carried along.
    NoneValid { errors: Vec<Errors> },
    /// More than one branch of an exclusive combinator accepted the value;
    /// the provenance of each accepting branch is carried along.
    MoreThanOneValid { matched: Vec<Option<Metadata>> },
    /// A negated schema accepted the value.
    ValidNot { matched: Option<Metadata> },
    /// Two elements of a unique sequence are the same.
    NotUnique { first: Option<Keys>, duplicate: Option<Keys> },
    /// No element satisfied the schema the sequence must contain.
    MustContain { schema: Option<Metadata> },
    /// The sequence has fewer elements than allowed.
    NotEnoughItems { min: usize },
    /// The sequence has more elements than allowed.
    TooManyItems { max: usize },
    /// The map has fewer entries than allowed.
    NotEnoughProperties { min: usize },
    /// The map has more entries than allowed.
    TooManyProperties { max: usize },
    /// A required entry is missing.
    RequiredProperty { name: String },
    /// A failure that did not originate from schema evaluation.
    Custom(String),
}

/// An ordered collection of failures; the result of a validation.
#[derive(Debug)]
pub struct Errors(pub Vec<Error>);

/// The model of one failure.
pub struct SpecError {
    pub meta: Option<SpecMeta>,
    pub span: Option<SegSeq>,
    pub value: SpecErrorValue,
}

/// The model of a failure kind.
pub enum SpecErrorValue {
    NotAllowed,
    MissingDefinition(Seq<char>),
    InvalidPattern(Seq<char>),
    ExternalReference(Seq<char>),
    KeyNotString,
    InvalidType { expected: SpecTypes },
    InvalidEnumValue { expected: Seq<SpecValue> },
    NotMultipleOf { multiple_of: int },
    LessThanExpected { min: int, exclusive: bool },
    MoreThanExpected { max: int, exclusive: bool },
    NoPatternMatch { pattern: Seq<char> },
    TooLong { max_length: int },
    TooShort { min_length: int },
    NoneValid { errors: Seq<Seq<SpecError>> },
    MoreThanOneValid { matched: Seq<Option<SpecMeta>> },
    ValidNot { matched: Option<SpecMeta> },
    NotUnique { first: Option<SegSeq>, duplicate: Option<SegSeq> },
    MustContain { schema: Option<SpecMeta> },
    NotEnoughItems { min: int },
    TooManyItems { max: int },
    NotEnoughProperties { min: int },
    TooManyProperties { max: int },
    RequiredProperty { name: Seq<char> },
    Custom(Seq<char>),
}

/// The model of one failure.
pub open spec fn err_view(e: Error) -> SpecError
    decreases e,
{
    SpecError {
        meta: opt_meta_view(e.meta),
        span: opt_keys_view(e.span),
        value: errval_view(e.value),
    }
}

/// The models of a sequence of failures, in order.
pub open spec fn errvec_view(s: Seq<Error>) -> Seq<SpecError>
    decreases s,
{
    if s.len() == 0 {
        Seq::empty()
    } else {
        errvec_view(s.drop_last()).push(err_view(s.last()))
    }
}

/// The models of a list of failure collections, in order.
pub open spec fn errslist_view(s: Seq<Errors>) -> Seq<Seq<SpecError>>
    decreases s,
{
    if s.len() == 0 {
        Seq::empty()
    } else {
        errslist_view(s.drop_last()).push(errvec_view(s.last().0@))
    }
}

/// The models of a list of optional provenances, in order.
pub open spec fn metas_view(s: Seq<Option<Metadata>>) -> Seq<Option<SpecMeta>>
    decreases s,
{
    if s.len() == 0 {
        Seq::empty()
    } else {
        metas_view(s.drop_last()).push(opt_meta_view(s.last()))
    }
}

/// The model of a failure kind.
pub open spec fn errval_view(v: ErrorValue) -> SpecErrorValue
    decreases v,
{
    match v {
        ErrorValue::NotAllowed => SpecErrorValue::NotAllowed,
        ErrorValue::InvalidSchema(s) => match s {
            InvalidSchema::MissingDefinition(name) => SpecErrorValue::MissingDefinition(name@),
            InvalidSchema::InvalidPattern { pattern } => SpecErrorValue::InvalidPattern(pattern@),
            InvalidSchema::ExternalReference(r) => SpecErrorValue::ExternalReference(r@),
        },
        ErrorValue::UnsupportedValue(u) => SpecErrorValue::KeyNotString,
        ErrorValue::InvalidType { expected } => SpecErrorValue::InvalidType {
            expected: types_view(expected),
        },
        ErrorValue::InvalidEnumValue { expected } => SpecErrorValue::InvalidEnumValue {
            expected: vviews(expected@),
        },
        ErrorValue::NotMultipleOf { multiple_of } => SpecErrorValue::NotMultipleOf {
            multiple_of: multiple_of as int,
        },
        ErrorValue::LessThanExpected { min, exclusive } => SpecErrorValue::LessThanExpected {
            min: min as int,
            exclusive,
        },
        ErrorValue::MoreThanExpected { max, exclusive } => SpecErrorValue::MoreThanExpected {
            max: max as int,
            exclusive,
        },
        ErrorValue::NoPatternMatch { pattern } => SpecErrorValue::NoPatternMatch {
            pattern: pattern@,
        },
        ErrorValue::TooLong { max_length } => SpecErrorValue::TooLong {
            max_length: max_length as int,
        },
        ErrorValue::TooShort { min_length } => SpecErrorValue::TooShort {
            min_length: min_length as int,
        },
        ErrorValue::NoneValid { errors } => SpecErrorValue::NoneValid {
            errors: errslist_view(errors@),
        },
        ErrorValue::MoreThanOneValid { matched } => SpecErrorValue::MoreThanOneValid {
            matched: metas_view(matched@),
        },
        ErrorValue::ValidNot { matched } => SpecErrorValue::ValidNot {
            matched: opt_meta_view(matched),
        },
        ErrorValue::NotUnique { first, duplicate } => SpecErrorValue::NotUnique {
            first: opt_keys_view(first),
            duplicate: opt_keys_view(duplicate),
        },
        ErrorValue::MustContain { schema } => SpecErrorValue::MustContain {
            schema: opt_meta_view(schema),
        },
        ErrorValue::NotEnoughItems { min } => SpecErrorValue::NotEnoughItems { min: min as int },
        ErrorValue::TooManyItems { max } => SpecErrorValue::TooManyItems { max: max as int },
        ErrorValue::NotEnoughProperties { min } => SpecErrorValue::NotEnoughProperties {
            min: min as int,
        },
        ErrorValue::TooManyProperties { max } => SpecErrorValue::TooManyProperties {
            max: max as int,
        },
        ErrorValue::RequiredProperty { name } => SpecErrorValue::RequiredProperty { name: name@ },
        ErrorValue::Custom(msg) => SpecErrorValue::Custom(msg@),
    }
}

impl View for Error {
    type V = SpecError;

    open spec fn view(&self) -> SpecError {
        err_view(*self)
    }
}

impl View for Errors {
    type V = Seq<SpecError>;

    open spec fn view(&self) -> Seq<SpecError> {
        errvec_view(self.0@)
    }
}

/// `errvec_view` maps each failure to its model.
pub proof fn lemma_errvec_view(s: Seq<Error>)
    ensures
        errvec_view(s).len() == s.len(),
        forall|i: int| 0 <= i < s.len() ==> errvec_view(s)[i] == err_view(#[trigger] s[i]),
    decreases s.len(),
{
    if s.len() > 0 {
        lemma_errvec_view(s.drop_last());
        assert forall|i: int|
            0 <= i < s.len() implies errvec_view(s)[i] == err_view(#[trigger] s[i]) by {
            if i < s.len() - 1 {
                assert(s.drop_last()[i] == s[i]);
                assert(errvec_view(s)[i] == errvec_view(s.drop_last())[i]);
            } else {
                assert(errvec_view(s)[i] == err_view(s.last()));
            }
        }
    }
}

/// `errslist_view` maps each collection to its model.
pub proof fn lemma_errslist_view(s: Seq<Errors>)
    ensures
        errslist_view(s).len() == s.len(),
        forall|i: int|
            0 <= i < s.len() ==> errslist_view(s)[i] == errvec_view((#[trigger] s[i]).0@),
    decreases s.len(),
{
    if s.len() > 0 {
        lemma_errslist_view(s.drop_last());
        assert forall|i: int|
            0 <= i < s.len() implies errslist_view(s)[i] == errvec_view(
            (#[trigger] s[i]).0@,
        ) by {
            if i < s.len() - 1 {
                assert(s.drop_last()[i] == s[i]);
                assert(errslist_view(s)[i] == errslist_view(s.drop_last())[i]);
            } else {
                assert(errslist_view(s)[i] == errvec_view(s.last().0@));
            }
        }
    }
}

/// `metas_view` maps each provenance to its model.
pub proof fn lemma_metas_view(s: Seq<Option<Metadata>>)
    ensures
        metas_view(s).len() == s.len(),
        forall|i: int|
            0 <= i < s.len() ==> metas_view(s)[i] == opt_meta_view(#[trigger] s[i]),
    decreases s.len(),
{
    if s.len() > 0 {
        lemma_metas_view(s.drop_last());
        assert forall|i: int|
            0 <= i < s.len() implies metas_view(s)[i] == opt_meta_view(#[trigger] s[i]) by {
            if i < s.len() - 1 {
                assert(s.drop_last()[i] == s[i]);
                assert(metas_view(s)[i] == metas_view(s.drop_last())[i]);
            } else {
                assert(metas_view(s)[i] == opt_meta_view(s.last()));
            }
        }
    }
}

/// Concatenating failure sequences concatenates their models.
pub proof fn lemma_errvec_view_concat(a: Seq<Error>, b: Seq<Error>)
    ensures
        errvec_view(a + b) == errvec_view(a) + errvec_view(b),
{
    lemma_errvec_view(a);
    lemma_errvec_view(b);
    lemma_errvec_view(a + b);
    assert forall|i: int|
        0 <= i < (a + b).len() implies errvec_view(a + b)[i] == (errvec_view(a) + errvec_view(
        b,
    ))[i] by {
        if i < a.len() {
            assert((a + b)[i] == a[i]);
        } else {
            assert((a + b)[i] == b[i - a.len()]);
        }
    }
    assert(errvec_view(a + b) =~= errvec_view(a) + errvec_view(b));
}

impl Error {
    /// Assemble one failure.
    pub fn new(meta: Option<Metadata>, span: Option<Keys>, value: ErrorValue) -> (r: Error)
        ensures
            r@ == (SpecError {
                meta: opt_meta_view(meta),
                span: opt_keys_view(span),
                value: errval_view(value),
            }),
    {
        Error { meta, span, value }
    }
}

impl Errors {
    /// An empty collection: the success result.
    pub fn new() -> (r: Errors)
        ensures
            r@ == Seq::<SpecError>::empty(),
    {
        Errors(Vec::new())
    }

    /// A collection holding exactly one failure.
    pub fn one(error: Error) -> (r: Errors)
        ensures
            r@ == seq![error@],
    {
        let mut v: Vec<Error> = Vec::new();
        v.push(error);
        proof {
            assert(v@.drop_last() =~= Seq::<Error>::empty());
            assert(errvec_view(Seq::<Error>::empty()) == Seq::<SpecError>::empty());
            assert(errvec_view(v@) =~= seq![err_view(error)]);
        }
        Errors(v)
    }

    /// Whether the collection is empty; emptiness is the sole success
    /// signal.
    pub fn is_empty(&self) -> (r: bool)
        ensures
            r == (self@.len() == 0),
    {
        proof {
            lemma_errvec_view(self.0@);
        }
        self.0.len() == 0
    }

    /// The number of failures collected.
    pub fn len(&self) -> (r: usize)
        ensures
            r == self@.len(),
    {
        proof {
            lemma_errvec_view(self.0@);
        }
        self.0.len()
    }

    /// The failure at position `i`, in discovery order.
    pub fn get(&self, i: usize) -> (r: &Error)
        requires
            i < self@.len(),
        ensures
            r@ == self@[i as int],
    {
        proof {
            lemma_errvec_view(self.0@);
        }
        &self.0[i]
    }

    /// Add one failure at the end.
    pub fn push(&mut self, error: Error)
        ensures
            final(self)@ == old(self)@.push(error@),
    {
        self.0.push(error);
        proof {
            assert(final(self).0@.drop_last() =~= old(self).0@);
        }
    }

    /// Append every failure of `other`, in order: combination is
    /// concatenation, never deduplication.
    pub fn combine(&mut self, other: Errors)
        ensures
            final(self)@ == old(self)@ + other@,
    {
        let mut rest = other.0;
        proof {
            lemma_errvec_view_concat(self.0@, rest@);
        }
        self.0.append(&mut rest);
    }

    /// A collection holding one failure that did not originate from schema
    /// evaluation: it carries no location and no provenance.
    pub fn custom(message: String) -> (r: Errors)
        ensures
            r@ == seq![
                SpecError {
                    meta: None,
                    span: None,
                    value: SpecErrorValue::Custom(message@),
                },
            ],
    {
        Errors::one(Error::new(None, None, ErrorValue::Custom(message)))
    }
}

/// Convenience trait for combining error-like values in place.
pub trait ErrorExt: Sized {
    /// Combine two error-like values, leaving the result in `self`.
    fn combine(&mut self, other: Self);
}

impl ErrorExt for Errors {
    /// Combining two collections concatenates them.
    fn combine(&mut self, other: Self)
        ensures
            final(self)@ == old(self)@ + other@,
    {
        Errors::combine(self, other);
    }
}

impl ErrorExt for Option<Errors> {
    /// A present `other` is appended to a present collection or stands
    /// alone; an absent one clears the result.
    fn combine(&mut self, other: Self)
        ensures
            match other {
                Some(o) => match *old(self) {
                    Some(s) => *final(self) is Some && final(self)->0@ == s@ + o@,
                    None => *final(self) is Some && final(self)->0@ == o@,
                },
                None => *final(self) is None,
            },
    {
        match other {
            Some(o) => match self {
                Some(s) => {
                    Errors::combine(s, o);
                },
                None => {
                    *self = Some(o);
                },
            },
            None => {
                *self = None;
            },
        }
    }
}

} // verus!
