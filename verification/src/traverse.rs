//! The traversal protocol: how a value walks itself past a validator and
//! how locations are assigned along the way. Every adapter callback answers
//! with a three-way signal — extend the current hierarchy, reset it, or
//! leave it alone — because resetting and having no location are observably
//! different things.

use vstd::prelude::*;

use crate::engine::validate_obj;
use crate::errors::Errors;
use crate::model::{key_string_spec, v_root, REF_FUEL};
use crate::schema::RootSchema;
use crate::span::{dup_opt_keys, opt_keys_view, Keys, SegSeq, Span, Spanned as SpannedLoc};
use crate::strings::{dec_digits, usize_to_string};
use crate::value::{SpecValue, Value};

verus! {

/// The answer of an adapter callback: how the new location relates to the
/// hierarchy built so far.
pub enum NewSpan<S> {
    /// Extend the hierarchy with this location; an absent location clears
    /// the whole hierarchy.
    Add(Option<S>),
    /// Reset the hierarchy first, then apply this location.
    Reset(Option<S>),
    /// Keep the hierarchy and location as they are.
    NoChange,
}

/// A source of locations for the steps of one traversal.
pub trait Spans: Sized {
    /// The location type handed out.
    type Span: Span;

    /// The location of a map key.
    fn key(&mut self, key: &Value) -> NewSpan<Self::Span>;

    /// The location of a plain value.
    fn value(&mut self, value: &Value) -> NewSpan<Self::Span>;

    /// The location of a unit-like value.
    fn unit(&mut self) -> NewSpan<Self::Span>;

    /// The location to use when a map opens.
    fn map_start(&mut self) -> NewSpan<Self::Span>;

    /// The location to use for failures reported when a map closes.
    fn map_end(&mut self) -> NewSpan<Self::Span>;

    /// The location to use when a sequence opens.
    fn seq_start(&mut self) -> NewSpan<Self::Span>;

    /// The location to use for failures reported when a sequence closes.
    fn seq_end(&mut self) -> NewSpan<Self::Span>;

    /// A fresh source for one level deeper.
    fn descend(&self) -> Self;
}

/// Locations built from traversal position alone: map entries get their
/// key, sequence elements their position written in decimal, and a key
/// with no string form gets a placeholder segment.
#[derive(Debug, Clone, Copy)]
pub struct KeySpans {
    /// Whether the current level is a sequence.
    is_seq: bool,
    /// The position of the next element at this level.
    item_index: usize,
}

impl KeySpans {
    /// Whether the current level is a sequence.
    pub closed spec fn spec_is_seq(&self) -> bool {
        self.is_seq
    }

    /// The position of the next element at this level.
    pub closed spec fn spec_index(&self) -> int {
        self.item_index as int
    }
}

impl Default for KeySpans {
    /// A fresh source: not in a sequence, at position zero.
    fn default() -> (r: Self)
        ensures
            !r.spec_is_seq(),
            r.spec_index() == 0,
    {
        KeySpans { is_seq: false, item_index: 0 }
    }
}

impl Spans for KeySpans {
    type Span = Keys;

    /// A map key contributes its string form as one segment, or a
    /// placeholder when it has none.
    fn key(&mut self, key: &Value) -> (r: NewSpan<Keys>)
        ensures
            *final(self) == *old(self),
            match r {
                NewSpan::Add(Some(k)) => k@ == seq![
                    match key_string_spec(key@) {
                        Some(ks) => ks,
                        None => "???"@,
                    },
                ],
                _ => false,
            },
    {
        match crate::engine::key_string(key) {
            Some(ks) => NewSpan::Add(Some(crate::engine::one_seg(ks))),
            None => NewSpan::Add(Some(crate::engine::one_seg(String::from_str("???")))),
        }
    }

    /// Inside a sequence a value contributes its position as one segment;
    /// elsewhere it contributes nothing.
    fn value(&mut self, _value: &Value) -> (r: NewSpan<Keys>)
        ensures
            final(self).spec_is_seq() == old(self).spec_is_seq(),
            !old(self).spec_is_seq() ==> r is NoChange && *final(self) == *old(self),
            old(self).spec_is_seq() ==> match r {
                NewSpan::Add(Some(k)) => k@ == seq![dec_digits(old(self).spec_index() as nat)]
                    && (old(self).spec_index() < usize::MAX ==> final(self).spec_index() == old(
                    self,
                ).spec_index() + 1),
                _ => false,
            },
    {
        if self.is_seq {
            let s = NewSpan::Add(Some(crate::engine::one_seg(usize_to_string(self.item_index))));
            if self.item_index < usize::MAX {
                self.item_index = self.item_index + 1;
            }
            s
        } else {
            NewSpan::NoChange
        }
    }

    /// A unit-like value is treated as any other plain value.
    fn unit(&mut self) -> (r: NewSpan<Keys>)
        ensures
            final(self).spec_is_seq() == old(self).spec_is_seq(),
            !old(self).spec_is_seq() ==> r is NoChange && *final(self) == *old(self),
    {
        let u = Value::Null;
        self.value(&u)
    }

    /// Opening a map changes nothing.
    fn map_start(&mut self) -> (r: NewSpan<Keys>)
        ensures
            *final(self) == *old(self),
            r is NoChange,
    {
        NewSpan::NoChange
    }

    /// Closing a map clears the hierarchy: end-of-map failures carry no
    /// location.
    fn map_end(&mut self) -> (r: NewSpan<Keys>)
        ensures
            *final(self) == *old(self),
            r matches NewSpan::Add(s) && s is None,
    {
        NewSpan::Add(None)
    }

    /// Opening a sequence starts counting positions.
    fn seq_start(&mut self) -> (r: NewSpan<Keys>)
        ensures
            final(self).spec_is_seq(),
            final(self).spec_index() == old(self).spec_index(),
            r is NoChange,
    {
        self.is_seq = true;
        NewSpan::NoChange
    }

    /// Closing a sequence stops counting and clears the hierarchy:
    /// end-of-sequence failures carry no location.
    fn seq_end(&mut self) -> (r: NewSpan<Keys>)
        ensures
            !final(self).spec_is_seq(),
            final(self).spec_index() == 0,
            r matches NewSpan::Add(s) && s is None,
    {
        self.is_seq = false;
        self.item_index = 0;
        NewSpan::Add(None)
    }

    /// One level deeper starts from a fresh source.
    fn descend(&self) -> (r: Self)
        ensures
            !r.spec_is_seq(),
            r.spec_index() == 0,
    {
        KeySpans { is_seq: false, item_index: 0 }
    }
}

/// A value wrapped together with its location and a source of locations for
/// the steps below it; what a validator is handed.
pub struct Spanned<'k> {
    spans: KeySpans,
    span: Option<Keys>,
    value: &'k Value,
}

impl<'k> Spanned<'k> {
    /// The wrapped value.
    pub closed spec fn spec_value(&self) -> SpecValue {
        (*self.value)@
    }

    /// The wrapped value's location.
    pub closed spec fn spec_span(&self) -> Option<SegSeq> {
        opt_keys_view(self.span)
    }

    /// Wrap a value, with no location of its own yet.
    pub fn new(value: &'k Value, spans: KeySpans) -> (r: Self)
        ensures
            r.spec_value() == value@,
            r.spec_span() is None,
    {
        Spanned { spans, span: None, value }
    }
}

impl<'k> SpannedLoc for Spanned<'k> {
    type Span = Keys;

    /// The location of the wrapped value, if it has one.
    fn span(&self) -> (r: Option<Keys>)
        ensures
            opt_keys_view(r) == self.spec_span(),
    {
        dup_opt_keys(&self.span)
    }
}

impl RootSchema {
    /// Judge a wrapped value against this document, starting with no
    /// inherited location. The collected failures come back exactly as the
    /// semantics prescribes, and emptiness is the sole success signal.
    pub fn verify_value(&self, value: &Spanned) -> (r: Result<(), Errors>)
        ensures
            match r {
                Ok(()) => v_root(
                    *self,
                    value.spec_value(),
                    None,
                    value.spec_span(),
                    REF_FUEL as nat,
                ).len() == 0,
                Err(e) => e@ == v_root(
                    *self,
                    value.spec_value(),
                    None,
                    value.spec_span(),
                    REF_FUEL as nat,
                ) && e@.len() > 0,
            },
    {
        self.verify_value_with_span(value, None)
    }

    /// Judge a wrapped value against this document, starting below an
    /// inherited parent location.
    pub fn verify_value_with_span(&self, value: &Spanned, span: Option<Keys>) -> (r: Result<
        (),
        Errors,
    >)
        ensures
            match r {
                Ok(()) => v_root(
                    *self,
                    value.spec_value(),
                    opt_keys_view(span),
                    value.spec_span(),
                    REF_FUEL as nat,
                ).len() == 0,
                Err(e) => e@ == v_root(
                    *self,
                    value.spec_value(),
                    opt_keys_view(span),
                    value.spec_span(),
                    REF_FUEL as nat,
                ) && e@.len() > 0,
            },
    {
        let none_span: Option<Keys> = None;
        let out = validate_obj(
            &self.definitions,
            &self.schema,
            &span,
            &none_span,
            &value.span,
            value.value,
            REF_FUEL,
        );
        if out.is_empty() {
            Ok(())
        } else {
            Err(out)
        }
    }
}

} // verus!
