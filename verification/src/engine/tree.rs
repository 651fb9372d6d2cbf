//! A syntax tree as plain values: the nodes in pre-order, each with its
//! grammar kind, its byte range and the indices of its children.
use vstd::prelude::*;

verus! {

/// One node of a parsed source.
#[derive(Debug)]
pub struct SyntaxNode {
    /// The grammar kind, e.g. `import_spec`.
    pub kind: String,
    pub start: usize,
    pub end: usize,
    /// Whether the parser marked this node as an error or as missing.
    pub is_error: bool,
    /// Indices of the children, in source order.
    pub children: Vec<usize>,
}

/// A parsed source: `nodes[0]` is the root.
#[derive(Debug)]
pub struct SyntaxTree {
    pub nodes: Vec<SyntaxNode>,
}

/// There is a root, and every child comes after its parent in the node list.
pub open spec fn ordered(t: Seq<SyntaxNode>) -> bool {
    &&& t.len() >= 1
    &&& forall|i: int, k: int|
        0 <= i < t.len() && 0 <= k < t[i].children@.len() ==> i < #[trigger] t[i].children@[k]
            < t.len()
}

/// An ordered tree whose every node covers a range inside a source of `len`
/// bytes.
pub open spec fn well_formed(t: Seq<SyntaxNode>, len: nat) -> bool {
    &&& ordered(t)
    &&& forall|i: int| 0 <= i < t.len() ==> (#[trigger] t[i]).start <= t[i].end <= len
}

impl SyntaxNode {
    /// Whether this node's kind is `kind`.
    pub fn is_kind(&self, kind: &str) -> (r: bool)
        ensures
            r == (self.kind@ == kind@),
    {
        crate::text::str_eq(self.kind.as_str(), kind)
    }
}

/// The bytes `source[start..end]`.
pub fn slice_range(source: &[u8], start: usize, end: usize) -> (r: Vec<u8>)
    requires
        start <= end <= source@.len(),
    ensures
        r@ == source@.subrange(start as int, end as int),
{
    let mut r: Vec<u8> = Vec::new();
    let mut i = start;
    while i < end
        invariant
            start <= i <= end <= source@.len(),
            r@ == source@.subrange(start as int, i as int),
        decreases end - i,
    {
        r.push(source[i]);
        i = i + 1;
        assert(r@ =~= source@.subrange(start as int, i as int));
    }
    r
}

} // verus!
