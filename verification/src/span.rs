//! Location identifiers ("spans") and their combination rules.
//!
//! A location is an ordered sequence of path segments. Combining two
//! locations concatenates their segments in traversal order; combining
//! optional locations follows one rule used everywhere: a present location
//! extends or replaces the current one, an absent location clears it.

use vstd::prelude::*;

verus! {

/// The mathematical value of a location: its segments, each a sequence of
/// characters.
pub type SegSeq = Seq<Seq<char>>;

/// Marker for location types that form a hierarchy by concatenation.
pub trait Span: Sized {
}

/// The model of an optional location.
pub open spec fn opt_keys_view(o: Option<Keys>) -> Option<SegSeq> {
    match o {
        Some(k) => Some(k@),
        None => None,
    }
}

/// The combination rule for optional locations: a present right operand is
/// appended to a present left operand or stands alone; an absent right
/// operand clears the result.
pub open spec fn combine_opt(a: Option<SegSeq>, b: Option<SegSeq>) -> Option<SegSeq> {
    match b {
        Some(nb) => match a {
            Some(sa) => Some(sa + nb),
            None => Some(nb),
        },
        None => None,
    }
}

/// The rule a validator uses to merge a parent location with the location of
/// the step below it: an absent step leaves the parent alone.
pub open spec fn combined_of(parent: Option<SegSeq>, step: Option<SegSeq>) -> Option<SegSeq> {
    if step is Some {
        combine_opt(parent, step)
    } else {
        parent
    }
}

/// Convenience trait for combining span-like values in place.
pub trait SpanExt: Sized {
    /// Combine two span-like values, leaving the result in `self`.
    fn combine(&mut self, span: Self);
}

/// Spanned values can report an optional location about themselves.
pub trait Spanned {
    /// The location type the value reports.
    type Span: Span;

    /// Return the location for the value, if it has one.
    fn span(&self) -> Option<Self::Span>;
}

/// A location made of consecutive string segments.
#[derive(Debug)]
pub struct Keys(Vec<String>);

impl View for Keys {
    type V = SegSeq;

    closed spec fn view(&self) -> SegSeq {
        self.0.deep_view()
    }
}

impl Span for Keys {
}

/// The rendering of a location: its segments joined by dots.
pub open spec fn dotted_spec(s: SegSeq) -> Seq<char>
    decreases s.len(),
{
    if s.len() == 0 {
        Seq::empty()
    } else if s.len() == 1 {
        s[0]
    } else {
        dotted_spec(s.drop_last()) + "."@ + s.last()
    }
}

impl Keys {
    /// Create a location with no segments.
    pub fn new() -> (r: Self)
        ensures
            r@ == Seq::<Seq<char>>::empty(),
    {
        Keys(Vec::new())
    }

    /// Create a location with no segments and room for `cap` of them.
    pub fn with_capacity(cap: usize) -> (r: Self)
        ensures
            r@ == Seq::<Seq<char>>::empty(),
    {
        Keys(Vec::with_capacity(cap))
    }

    /// Add one segment at the end.
    pub fn push(&mut self, value: String)
        ensures
            final(self)@ == old(self)@.push(value@),
    {
        self.0.push(value);
        proof {
            assert(final(self)@ =~= old(self)@.push(value@));
        }
    }

    /// Append every segment of `other`, in order.
    pub fn append(&mut self, other: Keys)
        ensures
            final(self)@ == old(self)@ + other@,
    {
        let mut rest = other.0;
        self.0.append(&mut rest);
        proof {
            assert(final(self)@ =~= old(self)@ + other@);
        }
    }

    /// The number of segments.
    pub fn len(&self) -> (r: usize)
        ensures
            r == self@.len(),
    {
        self.0.len()
    }

    /// The segment at `i`.
    pub fn segment(&self, i: usize) -> (r: &String)
        requires
            i < self@.len(),
        ensures
            r@ == self@[i as int],
    {
        &self.0[i]
    }

    /// A copy of this location.
    pub fn duplicate(&self) -> (r: Keys)
        ensures
            r@ == self@,
    {
        let c = self.0.clone();
        proof {
            assert forall|i: int| 0 <= i < self.0@.len() implies self.0@[i]@ == c@[i]@ by {
                assert(cloned::<String>(self.0@[i], c@[i]));
            }
            assert(c.deep_view() =~= self.0.deep_view());
        }
        Keys(c)
    }

    /// The segments joined by dots.
    pub fn dotted(&self) -> (r: String)
        ensures
            r@ == dotted_spec(self@),
    {
        let mut out = String::new();
        let n = self.0.len();
        let mut i: usize = 0;
        while i < n
            invariant
                n == self@.len(),
                0 <= i <= n,
                out@ == dotted_spec(self@.take(i as int)),
            decreases n - i,
        {
            if i > 0 {
                out.append(".");
            }
            out.append(self.0[i].as_str());
            proof {
                let t = self@.take(i + 1);
                assert(t.drop_last() =~= self@.take(i as int));
                assert(t.last() == self@[i as int]);
                if i == 0 {
                    assert(dotted_spec(t) == self@[0]);
                }
            }
            i += 1;
        }
        proof {
            assert(self@.take(n as int) =~= self@);
        }
        out
    }

    /// Give up the inner container of segments.
    pub fn into_inner(self) -> (r: Vec<String>)
        ensures
            r.deep_view() == self@,
    {
        self.0
    }
}

impl SpanExt for Keys {
    /// Combining two locations concatenates their segments.
    fn combine(&mut self, span: Self)
        ensures
            final(self)@ == old(self)@ + span@,
    {
        self.append(span);
    }
}

impl SpanExt for Option<Keys> {
    /// The optional-location rule: a present `span` extends or replaces
    /// `self`; an absent one clears it.
    fn combine(&mut self, span: Self)
        ensures
            opt_keys_view(*final(self)) == combine_opt(
                opt_keys_view(*old(self)),
                opt_keys_view(span),
            ),
    {
        match span {
            Some(new_span) => match self {
                Some(s) => s.append(new_span),
                None => {
                    *self = Some(new_span);
                },
            },
            None => {
                *self = None;
            },
        }
    }
}

/// A copy of an optional location.
pub fn dup_opt_keys(o: &Option<Keys>) -> (r: Option<Keys>)
    ensures
        opt_keys_view(r) == opt_keys_view(*o),
{
    match o {
        Some(k) => Some(k.duplicate()),
        None => None,
    }
}

/// The non-mutating form of the parent-with-step rule: the result extends
/// `parent` by `step` when `step` is present, and is `parent` itself when it
/// is absent.
pub fn combined(parent: &Option<Keys>, step: &Option<Keys>) -> (r: Option<Keys>)
    ensures
        opt_keys_view(r) == combined_of(opt_keys_view(*parent), opt_keys_view(*step)),
{
    match step {
        Some(s) => match parent {
            Some(p) => {
                let mut out = p.duplicate();
                out.append(s.duplicate());
                Some(out)
            },
            None => Some(s.duplicate()),
        },
        None => dup_opt_keys(parent),
    }
}

} // verus!
