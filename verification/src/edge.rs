//! The caller edge, the fact that the whole crate produces.
use vstd::prelude::*;

verus! {

/// "`caller`, defined in file `path`, contains a textual call to `callee`."
#[derive(Clone, Debug, PartialEq, Eq, Hash)]
pub struct Edge {
    pub caller: String,
    pub path: String,
    pub callee: String,
}

/// The mathematical value of an [`Edge`].
pub struct EdgeView {
    pub caller: Seq<char>,
    pub path: Seq<char>,
    pub callee: Seq<char>,
}

impl DeepView for Edge {
    type V = EdgeView;

    open spec fn deep_view(&self) -> EdgeView {
        EdgeView { caller: self.caller@, path: self.path@, callee: self.callee@ }
    }
}

impl View for Edge {
    type V = EdgeView;

    open spec fn view(&self) -> EdgeView {
        self.deep_view()
    }
}

impl Edge {
    /// Builds the edge from its three parts.
    pub fn new(caller: String, path: String, callee: String) -> (e: Edge)
        ensures
            e@ == (EdgeView { caller: caller@, path: path@, callee: callee@ }),
    {
        Edge { caller, path, callee }
    }

    /// Equality on the full `(caller, path, callee)` triple.
    pub fn same(&self, other: &Edge) -> (r: bool)
        ensures
            r == (self@ == other@),
    {
        self.caller == other.caller && self.path == other.path && self.callee == other.callee
    }

    /// A copy of the edge.
    pub fn duplicate(&self) -> (e: Edge)
        ensures
            e@ == self@,
    {
        Edge { caller: self.caller.clone(), path: self.path.clone(), callee: self.callee.clone() }
    }
}

} // verus!
