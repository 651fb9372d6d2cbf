//! The tree-sitter runtime behind the engine: the source is parsed with a
//! grammar, and the resulting tree is read node by node, in pre-order, into
//! a [`SyntaxTree`] of plain values, which is all the rest of the engine
//! reads. What a grammar makes of a source is named, so the engine's
//! contracts speak of the grammar's own parse; the reading checks what it is
//! handed, so the tree it builds is well formed whatever the runtime reports.
use vstd::prelude::*;
use crate::error::Error;
use crate::engine::tree::{SyntaxNode, SyntaxTree, well_formed};
use crate::engine::verify::{check_tree, syntax_verdict};

verus! {

#[verifier::external_type_specification]
#[verifier::external_body]
pub struct ExTree(tree_sitter::Tree);

/// One node of a parse as the runtime reports it: its grammar kind, its
/// byte range, whether it is an error or a missing node, and the pre-order
/// index of its parent (the root reports its own index, 0).
pub struct NodeRecord {
    pub kind: String,
    pub start: usize,
    pub end: usize,
    pub is_error: bool,
    pub is_missing: bool,
    pub parent: usize,
}

/// A node record as plain values.
pub type RecordView = (Seq<char>, usize, usize, bool, bool, usize);

impl View for NodeRecord {
    type V = RecordView;

    open spec fn view(&self) -> RecordView {
        (self.kind@, self.start, self.end, self.is_error, self.is_missing, self.parent)
    }
}

/// The nodes a runtime tree holds, in pre-order, as records.
pub uninterp spec fn tree_nodes(tree: tree_sitter::Tree) -> Seq<RecordView>;

/// What tree-sitter-go's grammar makes of a source: the nodes of the tree
/// `Parser::parse` returns, or `None` when it returns none.
pub uninterp spec fn go_syntax(source: Seq<u8>) -> Option<Seq<RecordView>>;

/// What tree-sitter-java's grammar makes of a source.
pub uninterp spec fn java_syntax(source: Seq<u8>) -> Option<Seq<RecordView>>;

/// What tree-sitter-c-sharp's grammar makes of a source.
pub uninterp spec fn csharp_syntax(source: Seq<u8>) -> Option<Seq<RecordView>>;

/// Parses `source` with a fresh `Parser` given `tree_sitter_go::LANGUAGE`,
/// over the whole source with no previous tree; the tree is named by its
/// nodes. Which sources yield a tree is not described here.
#[verifier::external_body]
fn parse_go(source: &[u8]) -> (r: Option<tree_sitter::Tree>)
    ensures
        r is Some <==> go_syntax(source@) is Some,
        r matches Some(t) ==> go_syntax(source@) == Some(tree_nodes(t)),
{
    let mut parser = tree_sitter::Parser::new();
    parser.set_language(&tree_sitter_go::LANGUAGE.into()).ok()?;
    parser.parse(source, None)
}

/// As [`parse_go`], with `tree_sitter_java::LANGUAGE`.
#[verifier::external_body]
fn parse_java(source: &[u8]) -> (r: Option<tree_sitter::Tree>)
    ensures
        r is Some <==> java_syntax(source@) is Some,
        r matches Some(t) ==> java_syntax(source@) == Some(tree_nodes(t)),
{
    let mut parser = tree_sitter::Parser::new();
    parser.set_language(&tree_sitter_java::LANGUAGE.into()).ok()?;
    parser.parse(source, None)
}

/// As [`parse_go`], with `tree_sitter_c_sharp::LANGUAGE`.
#[verifier::external_body]
fn parse_csharp(source: &[u8]) -> (r: Option<tree_sitter::Tree>)
    ensures
        r is Some <==> csharp_syntax(source@) is Some,
        r matches Some(t) ==> csharp_syntax(source@) == Some(tree_nodes(t)),
{
    let mut parser = tree_sitter::Parser::new();
    parser.set_language(&tree_sitter_c_sharp::LANGUAGE.into()).ok()?;
    parser.parse(source, None)
}

/// `Node::descendant_count` of the root node: how many nodes the tree
/// holds, the root included.
#[verifier::external_body]
fn node_count(tree: &tree_sitter::Tree) -> (r: usize)
    ensures
        r == tree_nodes(*tree).len(),
{
    tree.root_node().descendant_count()
}

/// The `i`th node of the tree in pre-order, read through a `TreeCursor`
/// moved there by `goto_descendant`: `Node::kind`, `start_byte`,
/// `end_byte`, `is_error` and `is_missing`, and the cursor's
/// `descendant_index` after `goto_parent`.
#[verifier::external_body]
fn record_at(tree: &tree_sitter::Tree, i: usize) -> (r: NodeRecord)
    requires
        i < tree_nodes(*tree).len(),
    ensures
        r@ == tree_nodes(*tree)[i as int],
{
    let mut cursor = tree.walk();
    cursor.goto_descendant(i);
    let node = cursor.node();
    cursor.goto_parent();
    NodeRecord {
        kind: node.kind().to_string(),
        start: node.start_byte(),
        end: node.end_byte(),
        is_error: node.is_error(),
        is_missing: node.is_missing(),
        parent: cursor.descendant_index(),
    }
}

/// The grammars the engine is configured with.
#[derive(Clone, Copy, Debug, PartialEq, Eq, Structural)]
pub enum Grammar {
    Go,
    Java,
    CSharp,
}

/// What `grammar` makes of `source`.
pub open spec fn parsed(grammar: Grammar, source: Seq<u8>) -> Option<Seq<RecordView>> {
    match grammar {
        Grammar::Go => go_syntax(source),
        Grammar::Java => java_syntax(source),
        Grammar::CSharp => csharp_syntax(source),
    }
}

fn parse_with(grammar: Grammar, source: &[u8]) -> (r: Option<tree_sitter::Tree>)
    ensures
        r is Some <==> parsed(grammar, source@) is Some,
        r matches Some(t) ==> parsed(grammar, source@) == Some(tree_nodes(t)),
{
    match grammar {
        Grammar::Go => parse_go(source),
        Grammar::Java => parse_java(source),
        Grammar::CSharp => parse_csharp(source),
    }
}

/// The records describe a tree over a source of `len` bytes: there is a
/// root, every node covers a range inside the source, and every node but
/// the root has a parent that comes before it.
pub open spec fn records_valid(recs: Seq<RecordView>, len: nat) -> bool {
    &&& recs.len() >= 1
    &&& forall|i: int| 0 <= i < recs.len() ==> (#[trigger] recs[i]).1 <= recs[i].2 <= len
    &&& forall|i: int| 1 <= i < recs.len() ==> (#[trigger] recs[i]).5 < i
}

/// The children of node `j` among the first `n` records: the nodes after
/// the root whose parent is `j`, in order.
pub open spec fn kids(recs: Seq<RecordView>, j: int, n: int) -> Seq<usize>
    decreases n,
{
    if n <= 1 {
        Seq::empty()
    } else {
        kids(recs, j, n - 1) + if recs[n - 1].5 == j {
            seq![(n - 1) as usize]
        } else {
            Seq::empty()
        }
    }
}

/// `t` is the syntax tree of the records: node for node the same kind and
/// range, an error where the runtime reported an error or a missing node,
/// and as children the nodes whose parent it is.
pub open spec fn read_as(t: Seq<SyntaxNode>, recs: Seq<RecordView>) -> bool {
    &&& t.len() == recs.len()
    &&& forall|i: int|
        0 <= i < t.len() ==> {
            &&& (#[trigger] t[i]).kind@ == recs[i].0
            &&& t[i].start == recs[i].1
            &&& t[i].end == recs[i].2
            &&& t[i].is_error == (recs[i].3 || recs[i].4)
            &&& t[i].children@ == kids(recs, i, recs.len() as int)
        }
}

/// `t` is the syntax tree of a parse that holds a valid tree of a source of
/// `len` bytes.
pub open spec fn tree_of(t: Seq<SyntaxNode>, parse: Option<Seq<RecordView>>, len: nat) -> bool {
    parse matches Some(recs) && records_valid(recs, len) && read_as(t, recs)
}

/// Whether a parse holds a valid tree of a source of `len` bytes.
pub open spec fn readable(parse: Option<Seq<RecordView>>, len: nat) -> bool {
    parse matches Some(recs) && records_valid(recs, len)
}

proof fn lemma_kids_bounds(recs: Seq<RecordView>, j: int, n: int)
    requires
        0 <= n <= recs.len() <= usize::MAX,
        forall|i: int| 1 <= i < recs.len() ==> (#[trigger] recs[i]).5 < i,
    ensures
        forall|m: int| 0 <= m < kids(recs, j, n).len() ==> j < #[trigger] kids(recs, j, n)[m] < n,
    decreases n,
{
    if n > 1 {
        lemma_kids_bounds(recs, j, n - 1);
        let prev = kids(recs, j, n - 1);
        let last: Seq<usize> = if recs[n - 1].5 == j {
            seq![(n - 1) as usize]
        } else {
            Seq::empty()
        };
        assert(kids(recs, j, n) == prev + last);
        assert forall|m: int| 0 <= m < kids(recs, j, n).len() implies j < #[trigger] kids(
            recs,
            j,
            n,
        )[m] < n by {
            if m < prev.len() {
                assert(kids(recs, j, n)[m] == prev[m]);
            } else {
                assert(recs[n - 1].5 == j);
                assert(recs[n - 1].5 < n - 1);
                assert(kids(recs, j, n)[m] == n - 1);
            }
        }
    }
}

/// A tree read from valid records is well formed.
proof fn lemma_read_well_formed(t: Seq<SyntaxNode>, recs: Seq<RecordView>, len: nat)
    requires
        records_valid(recs, len),
        recs.len() <= usize::MAX,
        read_as(t, recs),
    ensures
        well_formed(t, len),
{
    assert forall|i: int, k: int| 0 <= i < t.len() && 0 <= k < t[i].children@.len() implies i
        < #[trigger] t[i].children@[k] < t.len() by {
        lemma_kids_bounds(recs, i, recs.len() as int);
        assert(t[i].children@ == kids(recs, i, recs.len() as int));
    }
    assert forall|i: int| 0 <= i < t.len() implies (#[trigger] t[i]).start <= t[i].end <= len by {
        assert(recs[i].1 <= recs[i].2 <= len);
    }
}

/// Reads a runtime tree, node by node in pre-order, into a syntax tree of
/// plain values, refusing records that do not describe a tree of the
/// source.
fn flatten(tree: &tree_sitter::Tree, len: usize) -> (r: Result<SyntaxTree, Error>)
    ensures
        r is Ok <==> records_valid(tree_nodes(*tree), len as nat),
        r matches Ok(t) ==> read_as(t.nodes@, tree_nodes(*tree)) && well_formed(t.nodes@, len as nat),
        r matches Err(e) ==> e is Parse,
{
    let ghost recs = tree_nodes(*tree);
    let n = node_count(tree);
    if n == 0 {
        return Err(Error::Parse(String::from_str("the parser returned an empty tree")));
    }
    let mut nodes: Vec<SyntaxNode> = Vec::new();
    let mut parents: Vec<usize> = Vec::new();
    let mut i: usize = 0;
    while i < n
        invariant
            recs == tree_nodes(*tree),
            n == recs.len(),
            i <= n,
            nodes@.len() == i,
            parents@.len() == i,
            forall|m: int| 0 <= m < i ==> (#[trigger] recs[m]).1 <= recs[m].2 <= len,
            forall|m: int| 1 <= m < i ==> (#[trigger] recs[m]).5 < m,
            forall|m: int|
                0 <= m < i ==> {
                    &&& (#[trigger] nodes@[m]).kind@ == recs[m].0
                    &&& nodes@[m].start == recs[m].1
                    &&& nodes@[m].end == recs[m].2
                    &&& nodes@[m].is_error == (recs[m].3 || recs[m].4)
                    &&& nodes@[m].children@ == Seq::<usize>::empty()
                    &&& parents@[m] == recs[m].5
                },
        decreases n - i,
    {
        let rec = record_at(tree, i);
        if !(rec.start <= rec.end && rec.end <= len) {
            return Err(Error::Parse(String::from_str("node outside the source")));
        }
        if i > 0 && rec.parent >= i {
            return Err(Error::Parse(String::from_str("node before its parent")));
        }
        parents.push(rec.parent);
        nodes.push(
            SyntaxNode {
                kind: rec.kind,
                start: rec.start,
                end: rec.end,
                is_error: rec.is_error || rec.is_missing,
                children: Vec::new(),
            },
        );
        i = i + 1;
    }
    proof {
        assert forall|m: int| 0 <= m < n implies parents@[m] == (#[trigger] recs[m]).5 by {
            assert(nodes@[m].start == recs[m].1);
        }
    }
    let mut k: usize = 1;
    while k < n
        invariant
            n == recs.len(),
            1 <= k <= n,
            records_valid(recs, len as nat),
            nodes@.len() == n,
            parents@.len() == n,
            forall|m: int| 0 <= m < n ==> parents@[m] == (#[trigger] recs[m]).5,
            forall|m: int|
                0 <= m < n ==> {
                    &&& (#[trigger] nodes@[m]).kind@ == recs[m].0
                    &&& nodes@[m].start == recs[m].1
                    &&& nodes@[m].end == recs[m].2
                    &&& nodes@[m].is_error == (recs[m].3 || recs[m].4)
                    &&& nodes@[m].children@ == kids(recs, m, k as int)
                },
        decreases n - k,
    {
        let p = parents[k];
        assert(parents@[k as int] == recs[k as int].5);
        let ghost before = nodes@;
        nodes[p].children.push(k);
        proof {
            assert forall|m: int| 0 <= m < n implies {
                &&& (#[trigger] nodes@[m]).kind@ == recs[m].0
                &&& nodes@[m].start == recs[m].1
                &&& nodes@[m].end == recs[m].2
                &&& nodes@[m].is_error == (recs[m].3 || recs[m].4)
                &&& nodes@[m].children@ == kids(recs, m, k + 1)
            } by {
                assert(kids(recs, m, k + 1) == kids(recs, m, k as int) + if recs[k as int].5 == m {
                    seq![k]
                } else {
                    Seq::empty()
                });
                if m != p {
                    assert(nodes@[m] == before[m]);
                    assert(kids(recs, m, k + 1) =~= kids(recs, m, k as int));
                }
            }
        }
        k = k + 1;
    }
    proof {
        assert(read_as(nodes@, recs));
        lemma_read_well_formed(nodes@, recs, len as nat);
    }
    Ok(SyntaxTree { nodes })
}

/// Parses `source` with `grammar` and applies the parse check: a tree with an
/// error or missing node is refused, naming the byte where the first starts.
pub fn parse_source(grammar: Grammar, source: &[u8]) -> (r: Result<SyntaxTree, Error>)
    ensures
        r matches Ok(t) ==> tree_of(t.nodes@, parsed(grammar, source@), source@.len())
            && well_formed(t.nodes@, source@.len()) && syntax_verdict(t.nodes@) is Ok,
        (readable(parsed(grammar, source@), source@.len()) && forall|t: Seq<SyntaxNode>|
            #[trigger] tree_of(t, parsed(grammar, source@), source@.len()) ==> syntax_verdict(t)
                is Ok) ==> r is Ok,
        r matches Err(e) ==> e is Parse,
{
    let tree = match parse_with(grammar, source) {
        Some(t) => t,
        None => return Err(Error::Parse(String::from_str("the parser returned no tree"))),
    };
    let flat = match flatten(&tree, source.len()) {
        Ok(t) => t,
        Err(e) => return Err(e),
    };
    proof {
        assert(tree_of(flat.nodes@, parsed(grammar, source@), source@.len()));
    }
    match check_tree(&flat) {
        Ok(()) => Ok(flat),
        Err(e) => Err(e),
    }
}

/// Parses `source` with `grammar` without applying the parse check, for
/// checking an output: the caller decides what an error node means.
pub fn parse_unchecked(grammar: Grammar, source: &[u8]) -> (r: Result<SyntaxTree, Error>)
    ensures
        r is Ok <==> readable(parsed(grammar, source@), source@.len()),
        r matches Ok(t) ==> tree_of(t.nodes@, parsed(grammar, source@), source@.len())
            && well_formed(t.nodes@, source@.len()),
        r matches Err(e) ==> e is Parse,
{
    let tree = match parse_with(grammar, source) {
        Some(t) => t,
        None => return Err(Error::Parse(String::from_str("the parser returned no tree"))),
    };
    flatten(&tree, source.len())
}

} // verus!
