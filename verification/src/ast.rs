//! The small part of the syntax tree that the core builds itself.

use crate::symbol::Ident;
use vstd::prelude::*;

verus! {

/// A qualified name: identifiers joined by dots, such as `a.b.c`.
#[derive(Debug, PartialEq, Eq)]
pub struct Path {
    pub segments: Vec<Ident>,
}

impl View for Path {
    type V = Seq<Ident>;

    open spec fn view(&self) -> Seq<Ident> {
        self.segments@
    }
}

impl Path {
    /// A path of one identifier.
    pub fn new_single(ident: Ident) -> (path: Path)
        ensures
            path@ == seq![ident],
    {
        let mut segments: Vec<Ident> = Vec::new();
        segments.push(ident);
        assert(segments@ =~= seq![ident]);
        Path { segments }
    }

    /// A path of the given identifiers.
    pub fn new(segments: Vec<Ident>) -> (path: Path)
        ensures
            path@ == segments@,
    {
        Path { segments }
    }

    /// The identifiers of the path, in order.
    pub fn segments(&self) -> (segments: &Vec<Ident>)
        ensures
            segments@ == self@,
    {
        &self.segments
    }
}

} // verus!
