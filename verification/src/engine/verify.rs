//! The parse check and the equivalence artifact.
//!
//! A tree with an error or missing node is refused, naming the byte where
//! the first one starts. Two parses are equivalent when their comparable
//! artifacts agree: the kind and text of every leaf that is not a comment, in
//! source order. Comments are invisible to the artifact and whitespace never
//! forms a leaf, so a rewrite that only moves whitespace and drops comments
//! leaves it unchanged.
use vstd::prelude::*;
use crate::error::Error;
use crate::engine::plan::{LanguageKinds, covered, is_listed, listed};
use crate::engine::tree::{SyntaxNode, SyntaxTree, ordered, well_formed};
use crate::text::decimal;

verus! {

/// The index of the first node, from `i` on, that the parser marked as an
/// error or as missing.
pub open spec fn first_error(t: Seq<SyntaxNode>, i: int) -> Option<int>
    decreases t.len() - i,
{
    if i < 0 || i >= t.len() {
        None
    } else if t[i].is_error {
        Some(i)
    } else {
        first_error(t, i + 1)
    }
}

/// The message of the parse check for an error starting at byte `at`.
pub open spec fn syntax_error_message(at: usize) -> Seq<char> {
    "syntax error at byte "@ + decimal(at as nat)
}

/// What the parse check says of a tree.
pub open spec fn syntax_verdict(t: Seq<SyntaxNode>) -> Result<(), Seq<char>> {
    match first_error(t, 0) {
        None => Ok(()),
        Some(k) => Err(syntax_error_message(t[k].start)),
    }
}

/// The parse check: a tree holding an error or missing node is refused,
/// naming the start byte of the first one in source order.
pub fn check_tree(tree: &SyntaxTree) -> (r: Result<(), Error>)
    ensures
        match syntax_verdict(tree.nodes@) {
            Ok(()) => r is Ok,
            Err(m) => r matches Err(Error::Parse(s)) && s@ == m,
        },
{
    let ghost t = tree.nodes@;
    let mut i: usize = 0;
    while i < tree.nodes.len()
        invariant
            t == tree.nodes@,
            i <= t.len(),
            first_error(t, 0) == first_error(t, i as int),
        decreases t.len() - i,
    {
        if tree.nodes[i].is_error {
            let at = crate::text::decimal_string(tree.nodes[i].start);
            let message = String::from_str("syntax error at byte ").concat(at.as_str());
            return Err(Error::Parse(message));
        }
        i = i + 1;
    }
    Ok(())
}

/// Whether node `i` is a leaf of the artifact: a node below the root with
/// no children that is not a comment. The root is never a leaf, so a file
/// with nothing but comments and an empty file compare equal.
pub open spec fn artifact_leaf(t: Seq<SyntaxNode>, i: int, kinds: LanguageKinds) -> bool {
    i > 0 && t[i].children@.len() == 0 && !listed(kinds.comment_kinds@, t[i].kind@)
}

/// The indices of the artifact's leaves from node `i` on, in source order.
pub open spec fn leaf_indices(t: Seq<SyntaxNode>, kinds: LanguageKinds, i: int) -> Seq<usize>
    decreases t.len() - i,
{
    if i < 0 || i >= t.len() {
        Seq::empty()
    } else {
        (if artifact_leaf(t, i, kinds) {
            seq![i as usize]
        } else {
            Seq::empty()
        }) + leaf_indices(t, kinds, i + 1)
    }
}

/// The comparable artifact of a parse: the kind and text of every
/// non-comment leaf, in source order.
pub open spec fn artifact(t: Seq<SyntaxNode>, source: Seq<u8>, kinds: LanguageKinds) -> Seq<
    (Seq<char>, Seq<u8>),
> {
    leaf_indices(t, kinds, 0).map_values(
        |k: usize| (t[k as int].kind@, covered(t, k as int, source)),
    )
}

proof fn lemma_leaf_indices_bounded(t: Seq<SyntaxNode>, kinds: LanguageKinds, i: int)
    requires
        0 <= i,
        t.len() <= usize::MAX,
    ensures
        forall|j: int|
            0 <= j < leaf_indices(t, kinds, i).len() ==> i <= #[trigger] leaf_indices(t, kinds, i)[j]
                < t.len(),
    decreases t.len() - i,
{
    if i < t.len() {
        lemma_leaf_indices_bounded(t, kinds, i + 1);
        let head: Seq<usize> = if artifact_leaf(t, i, kinds) {
            seq![i as usize]
        } else {
            Seq::empty()
        };
        let rest = leaf_indices(t, kinds, i + 1);
        assert(leaf_indices(t, kinds, i) == head + rest);
        assert forall|j: int| 0 <= j < (head + rest).len() implies i <= #[trigger] (head
            + rest)[j] < t.len() by {
            if j >= head.len() {
                assert((head + rest)[j] == rest[j - head.len()]);
            } else {
                assert((head + rest)[j] == i as usize);
            }
        }
    }
}

/// The indices of the artifact's leaves.
fn artifact_leaves(tree: &SyntaxTree, kinds: &LanguageKinds) -> (v: Vec<usize>)
    ensures
        v@ == leaf_indices(tree.nodes@, *kinds, 0),
        forall|j: int| 0 <= j < v@.len() ==> v@[j] < tree.nodes@.len(),
{
    let ghost t = tree.nodes@;
    let mut v: Vec<usize> = Vec::new();
    let mut i: usize = 0;
    while i < tree.nodes.len()
        invariant
            t == tree.nodes@,
            i <= t.len(),
            leaf_indices(t, *kinds, 0) == v@ + leaf_indices(t, *kinds, i as int),
        decreases t.len() - i,
    {
        let node = &tree.nodes[i];
        let leaf = i > 0 && node.children.len() == 0 && !is_listed(
            &kinds.comment_kinds,
            node.kind.as_str(),
        );
        let ghost before = v@;
        if leaf {
            v.push(i);
        }
        proof {
            let head: Seq<usize> = if leaf {
                seq![i]
            } else {
                Seq::empty()
            };
            assert(leaf == artifact_leaf(t, i as int, *kinds));
            assert(v@ =~= before + head);
            assert(before + (head + leaf_indices(t, *kinds, i + 1)) =~= v@ + leaf_indices(
                t,
                *kinds,
                i + 1,
            ));
        }
        i = i + 1;
    }
    proof {
        assert(v@ =~= v@ + leaf_indices(t, *kinds, i as int));
        lemma_leaf_indices_bounded(t, *kinds, 0);
    }
    v
}

/// Whether `a[a_start..a_end]` and `b[b_start..b_end]` hold the same bytes.
fn same_bytes(a: &[u8], a_start: usize, a_end: usize, b: &[u8], b_start: usize, b_end: usize) -> (r:
    bool)
    requires
        a_start <= a_end <= a@.len(),
        b_start <= b_end <= b@.len(),
    ensures
        r == (a@.subrange(a_start as int, a_end as int) == b@.subrange(
            b_start as int,
            b_end as int,
        )),
{
    if a_end - a_start != b_end - b_start {
        assert(a@.subrange(a_start as int, a_end as int).len() != b@.subrange(
            b_start as int,
            b_end as int,
        ).len());
        return false;
    }
    let len = a_end - a_start;
    let mut k: usize = 0;
    while k < len
        invariant
            len == a_end - a_start == b_end - b_start,
            a_start <= a_end <= a@.len(),
            b_start <= b_end <= b@.len(),
            k <= len,
            forall|j: int|
                0 <= j < k ==> #[trigger] a@.subrange(a_start as int, a_end as int)[j] == b@.subrange(
                    b_start as int,
                    b_end as int,
                )[j],
        decreases len - k,
    {
        if a[a_start + k] != b[b_start + k] {
            assert(a@.subrange(a_start as int, a_end as int)[k as int] != b@.subrange(
                b_start as int,
                b_end as int,
            )[k as int]);
            return false;
        }
        assert(a@.subrange(a_start as int, a_end as int)[k as int] == b@.subrange(
            b_start as int,
            b_end as int,
        )[k as int]);
        k = k + 1;
    }
    assert(a@.subrange(a_start as int, a_end as int) =~= b@.subrange(b_start as int, b_end as int));
    true
}

/// Whether two parses have the same comparable artifact.
pub fn same_artifact(
    a: &SyntaxTree,
    a_source: &[u8],
    b: &SyntaxTree,
    b_source: &[u8],
    kinds: &LanguageKinds,
) -> (r: bool)
    requires
        well_formed(a.nodes@, a_source@.len()),
        well_formed(b.nodes@, b_source@.len()),
    ensures
        r == (artifact(a.nodes@, a_source@, *kinds) == artifact(b.nodes@, b_source@, *kinds)),
{
    let ghost ta = a.nodes@;
    let ghost tb = b.nodes@;
    let ghost aa = artifact(ta, a_source@, *kinds);
    let ghost ab = artifact(tb, b_source@, *kinds);
    let la = artifact_leaves(a, kinds);
    let lb = artifact_leaves(b, kinds);
    if la.len() != lb.len() {
        assert(aa.len() != ab.len());
        return false;
    }
    let mut j: usize = 0;
    while j < la.len()
        invariant
            la@ == leaf_indices(ta, *kinds, 0),
            lb@ == leaf_indices(tb, *kinds, 0),
            forall|x: int| 0 <= x < la@.len() ==> la@[x] < ta.len(),
            forall|x: int| 0 <= x < lb@.len() ==> lb@[x] < tb.len(),
            ta == a.nodes@,
            tb == b.nodes@,
            well_formed(ta, a_source@.len()),
            well_formed(tb, b_source@.len()),
            aa == artifact(ta, a_source@, *kinds),
            ab == artifact(tb, b_source@, *kinds),
            la@.len() == lb@.len(),
            j <= la@.len(),
            forall|x: int| 0 <= x < j ==> aa[x] == ab[x],
        decreases la@.len() - j,
    {
        let x = &a.nodes[la[j]];
        let y = &b.nodes[lb[j]];
        let same = crate::text::str_eq(x.kind.as_str(), y.kind.as_str()) && same_bytes(
            a_source,
            x.start,
            x.end,
            b_source,
            y.start,
            y.end,
        );
        if !same {
            assert(aa[j as int] != ab[j as int]);
            return false;
        }
        j = j + 1;
    }
    assert(aa =~= ab);
    true
}

/// What the equivalence check says of an input parse and an output parse:
/// the output must pass the parse check and have the input's artifact.
pub open spec fn equivalence(
    input: Seq<SyntaxNode>,
    input_source: Seq<u8>,
    output: Seq<SyntaxNode>,
    output_source: Seq<u8>,
    kinds: LanguageKinds,
) -> Result<(), Seq<char>> {
    match syntax_verdict(output) {
        Err(m) => Err("output failed to re-parse: "@ + m),
        Ok(()) => if artifact(input, input_source, kinds) == artifact(
            output,
            output_source,
            kinds,
        ) {
            Ok(())
        } else {
            Err("output AST differs from input"@)
        },
    }
}

/// The equivalence check on two parses.
pub fn check_equivalent(
    input: &SyntaxTree,
    input_source: &[u8],
    output: &SyntaxTree,
    output_source: &[u8],
    kinds: &LanguageKinds,
) -> (r: Result<(), Error>)
    requires
        well_formed(input.nodes@, input_source@.len()),
        well_formed(output.nodes@, output_source@.len()),
    ensures
        match equivalence(input.nodes@, input_source@, output.nodes@, output_source@, *kinds) {
            Ok(()) => r is Ok,
            Err(m) => r matches Err(Error::Verification(s)) && s@ == m,
        },
{
    match check_tree(output) {
        Err(e) => {
            let message = match e {
                Error::Parse(s) => s,
                _ => String::new(),
            };
            Err(
                Error::Verification(
                    String::from_str("output failed to re-parse: ").concat(message.as_str()),
                ),
            )
        },
        Ok(()) => {
            if same_artifact(input, input_source, output, output_source, kinds) {
                Ok(())
            } else {
                Err(Error::Verification(String::from_str("output AST differs from input")))
            }
        },
    }
}

/// What re-parsing alone says of an output parse.
pub open spec fn reparse_verdict(output: Seq<SyntaxNode>) -> Result<(), Seq<char>> {
    match syntax_verdict(output) {
        Err(m) => Err("output failed to re-parse: "@ + m),
        Ok(()) => Ok(()),
    }
}

/// The re-parse check on an output parse.
pub fn check_reparse(output: &SyntaxTree) -> (r: Result<(), Error>)
    ensures
        match reparse_verdict(output.nodes@) {
            Ok(()) => r is Ok,
            Err(m) => r matches Err(Error::Verification(s)) && s@ == m,
        },
{
    match check_tree(output) {
        Err(e) => {
            let message = match e {
                Error::Parse(s) => s,
                _ => String::new(),
            };
            Err(
                Error::Verification(
                    String::from_str("output failed to re-parse: ").concat(message.as_str()),
                ),
            )
        },
        Ok(()) => Ok(()),
    }
}

} // verus!
