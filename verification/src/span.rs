//! Source locations and located values.

use vstd::prelude::*;

verus! {

/// A half-open range of positions in the source text.
#[derive(Clone, Copy, Debug, PartialEq, Eq, Structural)]
pub struct SpanInfo {
    pub start: usize,
    pub end: usize,
}

/// A value together with the place in the source it came from.
#[derive(Debug, PartialEq, Eq)]
pub struct Span<T> {
    pub info: SpanInfo,
    pub inner: T,
}

/// The location that covers `start..end`.
pub fn span(start: usize, end: usize) -> (r: SpanInfo)
    ensures
        r.start == start,
        r.end == end,
{
    SpanInfo { start, end }
}

impl SpanInfo {
    /// Attaches this location to a value.
    pub fn make<T>(&self, inner: T) -> (r: Span<T>)
        ensures
            r.info == *self,
            r.inner == inner,
    {
        Span { info: *self, inner }
    }
}

/// An identifier with the place where it was written. Two identifiers denote
/// the same thing when their names are equal, wherever they were written.
#[derive(Debug, PartialEq, Eq)]
pub struct Name {
    pub name: String,
    pub info: SpanInfo,
}

/// The name of a type constructor or type variable.
pub type TypeV = Name;

/// The name of a term variable.
pub type TermV = Name;

/// The tag of a data constructor.
pub type CtorV = Name;

/// The tag of a codata destructor.
pub type DtorV = Name;

impl View for Name {
    type V = Seq<char>;

    open spec fn view(&self) -> Seq<char> {
        self.name@
    }
}

impl Clone for Name {
    fn clone(&self) -> (r: Self)
        ensures
            r == *self,
    {
        Name { name: self.name.clone(), info: self.info }
    }
}

impl Name {
    /// An identifier written at `info`.
    pub fn new(name: String, info: SpanInfo) -> (r: Name)
        ensures
            r.name == name,
            r.info == info,
    {
        Name { name, info }
    }

    /// An identifier that no source text holds, such as a built-in.
    pub fn internal(name: &str) -> (r: Name)
        ensures
            r@ == name@,
            r.info == (SpanInfo { start: 0, end: 0 }),
    {
        Name { name: name.to_owned(), info: span(0, 0) }
    }

    /// The identifier's text.
    pub fn name(&self) -> (r: &String)
        ensures
            r@ == self@,
    {
        &self.name
    }

    /// Whether two identifiers have the same text.
    pub fn same(&self, other: &Name) -> (r: bool)
        ensures
            r == (self@ == other@),
    {
        self.name == other.name
    }

    /// Whether the identifier's text is `text`.
    pub fn is(&self, text: &str) -> (r: bool)
        ensures
            r == (self@ == text@),
    {
        let other: String = text.to_owned();
        self.name == other
    }
}

/// The names of a sequence of identifiers, in order.
pub open spec fn names_of(s: Seq<Name>) -> Seq<Seq<char>> {
    Seq::new(s.len(), |i: int| s[i]@)
}

} // verus!
