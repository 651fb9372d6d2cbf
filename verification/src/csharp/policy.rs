//! The C# comment hazard surface. `csc` reads nothing out of a comment, so
//! nothing must survive stripping and there is no verbatim prologue. The
//! hazards are where the grammar and the compiler disagree about where a
//! comment ends, and where blanking a comment would turn a `#` into the
//! first byte of its line: a file carrying any of them is left
//! byte-identical at both settings.
use vstd::prelude::*;
use crate::engine::plan::CommentPolicy;
use crate::engine::span::Span;
use crate::engine::tree::{SyntaxNode, SyntaxTree, slice_range, well_formed};

verus! {

/// True when a comment must survive stripping: no C# comment has to.
pub fn is_semantic_comment(_bytes: &[u8]) -> (r: bool)
    ensures
        !r,
{
    false
}

/// The verbatim head of a C# file: there is none.
pub fn no_prologue(_tree: &SyntaxTree, _source: &[u8]) -> (r: (usize, usize))
    ensures
        r == (0usize, 0usize),
{
    (0, 0)
}

/// A space or a tab: what may stand before a preprocessor directive's `#`
/// on its line.
pub open spec fn is_hspace(b: u8) -> bool {
    b == 0x20 || b == 0x09
}

/// Whether, from byte `k` of `s` on, only spaces and tabs come before a `#`.
pub open spec fn hash_follows(s: Seq<u8>, k: int) -> bool {
    exists|m: int|
        k <= m < s.len() && #[trigger] s[m] == 0x23 && forall|j: int|
            k <= j < m ==> is_hspace(#[trigger] s[j])
}

/// Where the line holding byte `k` of `s` starts.
pub open spec fn line_start(s: Seq<u8>, k: int) -> int
    decreases k,
{
    if k <= 0 {
        0
    } else if s[k - 1] == 0x0a {
        k
    } else {
        line_start(s, k - 1)
    }
}

/// Whether only spaces and tabs stand between the start of the line that
/// holds byte `k` of `s` and that byte.
pub open spec fn opens_its_line(s: Seq<u8>, k: int) -> bool {
    forall|j: int| line_start(s, k) <= j < k ==> is_hspace(#[trigger] s[j])
}

/// Stepping back over bytes that are not newlines keeps the line start.
proof fn lemma_line_start_back(s: Seq<u8>, m: int, k: int)
    requires
        0 <= m <= k,
        forall|j: int| m <= j < k ==> #[trigger] s[j] != 0x0a,
    ensures
        line_start(s, k) == line_start(s, m),
        m <= line_start(s, k) || line_start(s, k) <= m,
    decreases k - m,
{
    if k > m {
        assert(s[k - 1] != 0x0a);
        lemma_line_start_back(s, m, k - 1);
    }
}

proof fn lemma_line_start_bounds(s: Seq<u8>, k: int)
    requires
        0 <= k,
    ensures
        0 <= line_start(s, k) <= k,
        line_start(s, k) == 0 || s[line_start(s, k) - 1] == 0x0a,
    decreases k,
{
    if k > 0 && s[k - 1] != 0x0a {
        lemma_line_start_bounds(s, k - 1);
    }
}

/// A delimited comment that runs across a line beginning with a
/// preprocessor directive: to the compiler the directive is live, to the
/// grammar it is comment text.
pub open spec fn spans_a_directive(c: Seq<u8>) -> bool {
    &&& c.len() >= 2 && c[0] == 0x2f && c[1] == 0x2a
    &&& exists|k: int| 0 < k < c.len() && #[trigger] c[k - 1] == 0x0a && hash_follows(c, k)
}

/// A line terminator C# has and the grammar does not: U+0085, U+2028 or
/// U+2029, starting at byte `k`.
pub open spec fn foreign_terminator_at(c: Seq<u8>, k: int) -> bool {
    (k + 1 < c.len() && c[k] == 0xc2 && c[k + 1] == 0x85) || (k + 2 < c.len() && c[k] == 0xe2
        && c[k + 1] == 0x80 && (c[k + 2] == 0xa8 || c[k + 2] == 0xa9))
}

/// A `//` comment carrying a line terminator the grammar ignores: the
/// compiler ends the comment there and reads the rest as code.
pub open spec fn carries_foreign_terminator(c: Seq<u8>) -> bool {
    &&& c.len() >= 2 && c[0] == 0x2f && c[1] == 0x2f
    &&& exists|k: int| 0 <= k < c.len() && #[trigger] foreign_terminator_at(c, k)
}

/// A comment that opens its line and is followed on that line by a `#`:
/// blanking it would make that `#` start a directive.
pub open spec fn shields_a_directive(source: Seq<u8>, start: int, end: int) -> bool {
    opens_its_line(source, start) && hash_follows(source, end)
}

/// Whether the comment at `start..end` of `source` carries a boundary
/// hazard.
pub open spec fn boundary_hazard(source: Seq<u8>, start: int, end: int) -> bool {
    let c = source.subrange(start, end);
    spans_a_directive(c) || carries_foreign_terminator(c) || shields_a_directive(
        source,
        start,
        end,
    )
}

/// Whether some comment node of the tree carries a boundary hazard.
pub open spec fn has_hazard(t: Seq<SyntaxNode>, source: Seq<u8>) -> bool {
    exists|i: int|
        0 <= i < t.len() && t[i].kind@ == "comment"@ && #[trigger] boundary_hazard(
            source,
            t[i].start as int,
            t[i].end as int,
        )
}

fn is_hs(b: u8) -> (r: bool)
    ensures
        r == is_hspace(b),
{
    b == 0x20 || b == 0x09
}

/// Whether only spaces and tabs come before a `#` from byte `k` on.
fn hash_follows_at(s: &[u8], k: usize) -> (r: bool)
    requires
        k <= s@.len(),
    ensures
        r == hash_follows(s@, k as int),
{
    let mut m = k;
    while m < s.len() && is_hs(s[m])
        invariant
            k <= m <= s@.len(),
            forall|j: int| k <= j < m ==> is_hspace(#[trigger] s@[j]),
        decreases s@.len() - m,
    {
        m = m + 1;
    }
    let r = m < s.len() && s[m] == 0x23;
    proof {
        if r {
            assert(s@[m as int] == 0x23);
        } else if hash_follows(s@, k as int) {
            let w = choose|w: int|
                k <= w < s@.len() && #[trigger] s@[w] == 0x23 && forall|j: int|
                    k <= j < w ==> is_hspace(#[trigger] s@[j]);
            if w < m {
                assert(is_hspace(s@[w]));
            } else if w > m {
                assert(m < s@.len());
                assert(is_hspace(s@[m as int]));
            }
        }
    }
    r
}

/// Whether only spaces and tabs stand between the start of byte `k`'s line
/// and byte `k`.
fn opens_line_at(s: &[u8], k: usize) -> (r: bool)
    requires
        k <= s@.len(),
    ensures
        r == opens_its_line(s@, k as int),
{
    let mut a = k;
    while a > 0 && is_hs(s[a - 1])
        invariant
            a <= k <= s@.len(),
            forall|j: int| a <= j < k ==> is_hspace(#[trigger] s@[j]),
        decreases a,
    {
        a = a - 1;
    }
    let r = a == 0 || s[a - 1] == 0x0a;
    proof {
        assert forall|j: int| a <= j < k implies #[trigger] s@[j] != 0x0a by {
            assert(is_hspace(s@[j]));
        }
        lemma_line_start_back(s@, a as int, k as int);
        if a > 0 && s@[a - 1] != 0x0a {
            assert(line_start(s@, a as int) == line_start(s@, a - 1));
            lemma_line_start_bounds(s@, a - 1);
            assert(line_start(s@, k as int) <= a - 1);
            assert(!is_hspace(s@[a - 1]));
        }
    }
    r
}

/// Whether the delimited comment `c` runs across a directive line.
fn spans_directive(c: &[u8]) -> (r: bool)
    ensures
        r == spans_a_directive(c@),
{
    if c.len() < 2 || c[0] != 0x2f || c[1] != 0x2a {
        return false;
    }
    let mut k: usize = 1;
    while k < c.len()
        invariant
            1 <= k <= c@.len(),
            c@.len() >= 2 && c@[0] == 0x2f && c@[1] == 0x2a,
            forall|x: int| 0 < x < k ==> !(#[trigger] c@[x - 1] == 0x0a && hash_follows(c@, x)),
        decreases c@.len() - k,
    {
        if c[k - 1] == 0x0a && hash_follows_at(c, k) {
            return true;
        }
        k = k + 1;
    }
    false
}

/// Whether the `//` comment `c` carries a foreign line terminator.
fn carries_terminator(c: &[u8]) -> (r: bool)
    ensures
        r == carries_foreign_terminator(c@),
{
    if c.len() < 2 || c[0] != 0x2f || c[1] != 0x2f {
        return false;
    }
    let n = c.len();
    let mut k: usize = 0;
    while k < n
        invariant
            n == c@.len(),
            k <= n,
            c@.len() >= 2 && c@[0] == 0x2f && c@[1] == 0x2f,
            forall|x: int| 0 <= x < k ==> !#[trigger] foreign_terminator_at(c@, x),
        decreases n - k,
    {
        let hit = (n - k > 1 && c[k] == 0xc2 && c[k + 1] == 0x85) || (n - k > 2 && c[k] == 0xe2
            && c[k + 1] == 0x80 && (c[k + 2] == 0xa8 || c[k + 2] == 0xa9));
        if hit {
            assert(foreign_terminator_at(c@, k as int));
            assert(c@.len() >= 2 && c@[0] == 0x2f && c@[1] == 0x2f);
            return true;
        }
        k = k + 1;
    }
    false
}

/// Whether the comment at `start..end` of `source` carries a boundary
/// hazard.
pub fn comment_has_hazard(source: &[u8], start: usize, end: usize) -> (r: bool)
    requires
        start <= end <= source@.len(),
    ensures
        r == boundary_hazard(source@, start as int, end as int),
{
    let c = slice_range(source, start, end);
    spans_directive(c.as_slice()) || carries_terminator(c.as_slice()) || (opens_line_at(
        source,
        start,
    ) && hash_follows_at(source, end))
}

/// True when some comment of the file carries a boundary hazard, so the
/// whole file must be left byte-identical: the C# bail-out.
pub fn has_comment_boundary_hazard(tree: &SyntaxTree, source: &[u8]) -> (r: bool)
    requires
        well_formed(tree.nodes@, source@.len()),
    ensures
        r == has_hazard(tree.nodes@, source@),
{
    let ghost t = tree.nodes@;
    let mut i: usize = 0;
    while i < tree.nodes.len()
        invariant
            t == tree.nodes@,
            well_formed(t, source@.len()),
            i <= t.len(),
            forall|x: int|
                0 <= x < i ==> !(t[x].kind@ == "comment"@ && #[trigger] boundary_hazard(
                    source@,
                    t[x].start as int,
                    t[x].end as int,
                )),
        decreases t.len() - i,
    {
        let node = &tree.nodes[i];
        if node.is_kind("comment") && comment_has_hazard(source, node.start, node.end) {
            return true;
        }
        i = i + 1;
    }
    false
}

/// The C# comment policy. Stripping keeps no comment at all; there is no
/// prologue and no column-0 pin, and a file carrying a boundary hazard is
/// left alone at both settings.
#[derive(Clone, Copy, Debug)]
pub struct CSharpCommentPolicy {
    pub strip_comments: bool,
}

/// The stripping C# policy.
pub fn comment_policy() -> (r: CSharpCommentPolicy)
    ensures
        r.strip_comments,
{
    CSharpCommentPolicy { strip_comments: true }
}

impl CommentPolicy for CSharpCommentPolicy {
    open spec fn keep_spec(&self, bytes: Seq<u8>) -> bool {
        !self.strip_comments
    }

    open spec fn prologue_spec(&self, t: Seq<SyntaxNode>, source: Seq<u8>) -> (usize, usize) {
        (0usize, 0usize)
    }

    open spec fn bail_spec(&self, t: Seq<SyntaxNode>, source: Seq<u8>) -> bool {
        has_hazard(t, source)
    }

    open spec fn pin_spec(&self, source: Seq<u8>, span: Span) -> bool {
        false
    }

    fn keep(&self, bytes: &[u8]) -> (r: bool) {
        !self.strip_comments || is_semantic_comment(bytes)
    }

    fn prologue(&self, tree: &SyntaxTree, source: &[u8]) -> (r: (usize, usize)) {
        no_prologue(tree, source)
    }

    fn bail(&self, tree: &SyntaxTree, source: &[u8]) -> (r: bool) {
        has_comment_boundary_hazard(tree, source)
    }

    fn pin(&self, source: &[u8], span: Span) -> (r: bool) {
        false
    }
}

} // verus!
