//! The Java comment hazard surface. A Java comment carries no meaning to the
//! compiler, so nothing must survive stripping; the one hazard is a unicode
//! escape inside a comment that the compiler translates before it finds where
//! the comment ends, and a file holding one is left byte-identical.
use vstd::prelude::*;
use crate::engine::tree::{SyntaxNode, SyntaxTree, well_formed, slice_range};
use crate::engine::plan::CommentPolicy;
use crate::engine::span::Span;

verus! {

/// True when a comment must survive stripping: no Java comment has to.
pub fn is_semantic_comment(_bytes: &[u8]) -> (r: bool)
    ensures
        !r,
{
    false
}

/// The verbatim head of a Java file: there is none.
pub fn no_prologue(_tree: &SyntaxTree, _source: &[u8]) -> (r: (usize, usize))
    ensures
        r == (0usize, 0usize),
{
    (0, 0)
}

/// The value of an ASCII hexadecimal digit.
pub open spec fn hex_value(b: u8) -> Option<u32> {
    if 0x30 <= b <= 0x39 {
        Some((b - 0x30) as u32)
    } else if 0x61 <= b <= 0x66 {
        Some((b - 0x61 + 10) as u32)
    } else if 0x41 <= b <= 0x46 {
        Some((b - 0x41 + 10) as u32)
    } else {
        None
    }
}

/// The number of leading `u` markers of `s`.
pub open spec fn leading_us(s: Seq<u8>) -> nat
    decreases s.len(),
{
    if s.len() > 0 && s[0] == 0x75 {
        1 + leading_us(s.skip(1))
    } else {
        0
    }
}

/// The value of the four hexadecimal digits `d`.
pub open spec fn four_hex(d: Seq<u8>) -> Option<u32> {
    match (hex_value(d[0]), hex_value(d[1]), hex_value(d[2]), hex_value(d[3])) {
        (Some(a), Some(b), Some(c), Some(e)) => Some((((a * 16 + b) * 16 + c) * 16 + e) as u32),
        _ => None,
    }
}

/// The code unit a unicode escape denotes, given the bytes after its
/// backslash: one or more `u` markers then four hex digits.
pub open spec fn escape_of(after: Seq<u8>) -> Option<u32> {
    let m = leading_us(after);
    if m == 0 || after.len() < m + 4 {
        None
    } else {
        four_hex(after.subrange(m as int, (m + 4) as int))
    }
}

/// The escape values whose translation could move the end of a comment:
/// line feed, carriage return, `*` and `/`.
pub open spec fn is_hazardous_value(v: u32) -> bool {
    v == 0x000A || v == 0x000D || v == 0x002A || v == 0x002F
}

/// A maximal run of `r` backslashes starting at `i`.
pub open spec fn backslash_run(s: Seq<u8>, i: int, r: int) -> bool {
    &&& 0 <= i && 1 <= r && i + r <= s.len()
    &&& (i == 0 || s[i - 1] != 0x5c)
    &&& (forall|k: int| i <= k < i + r ==> s[k] == 0x5c)
    &&& (i + r == s.len() || s[i + r] != 0x5c)
}

/// Whether `s` holds an unescaped unicode escape (one ending an odd run of
/// backslashes) whose value is hazardous.
pub open spec fn has_hazardous_escape(s: Seq<u8>) -> bool {
    exists|i: int, r: int|
        #![trigger backslash_run(s, i, r)]
        backslash_run(s, i, r) && r % 2 == 1 && (escape_of(s.skip(i + r)) matches Some(v)
            && is_hazardous_value(v))
}

fn hex_digit(b: u8) -> (r: Option<u32>)
    ensures
        r == hex_value(b),
{
    if 0x30 <= b && b <= 0x39 {
        Some((b - 0x30) as u32)
    } else if 0x61 <= b && b <= 0x66 {
        Some((b - 0x61 + 10) as u32)
    } else if 0x41 <= b && b <= 0x46 {
        Some((b - 0x41 + 10) as u32)
    } else {
        None
    }
}

proof fn lemma_leading_us(s: Seq<u8>, m: int)
    requires
        0 <= m <= s.len(),
        forall|k: int| 0 <= k < m ==> s[k] == 0x75,
        m == s.len() || s[m] != 0x75,
    ensures
        leading_us(s) == m,
    decreases m,
{
    if m > 0 {
        assert forall|k: int| 0 <= k < m - 1 implies s.skip(1)[k] == 0x75 by {
            assert(s.skip(1)[k] == s[k + 1]);
        }
        lemma_leading_us(s.skip(1), m - 1);
    }
}

/// The code unit of the unicode escape that `after_backslash` continues, if
/// it is a well-formed one: one or more `u` markers and four hex digits.
pub fn escape_value(after_backslash: &[u8]) -> (r: Option<u32>)
    ensures
        r == escape_of(after_backslash@),
{
    let s = after_backslash;
    let mut m: usize = 0;
    while m < s.len() && s[m] == 0x75
        invariant
            m <= s@.len(),
            forall|k: int| 0 <= k < m ==> s@[k] == 0x75,
        decreases s@.len() - m,
    {
        m = m + 1;
    }
    proof {
        lemma_leading_us(s@, m as int);
    }
    if m == 0 || s.len() - m < 4 {
        return None;
    }
    let ghost d = s@.subrange(m as int, m + 4);
    assert(d[0] == s@[m as int] && d[1] == s@[m + 1] && d[2] == s@[m + 2] && d[3] == s@[m + 3]);
    let a = match hex_digit(s[m]) {
        Some(v) => v,
        None => return None,
    };
    let b = match hex_digit(s[m + 1]) {
        Some(v) => v,
        None => return None,
    };
    let c = match hex_digit(s[m + 2]) {
        Some(v) => v,
        None => return None,
    };
    let e = match hex_digit(s[m + 3]) {
        Some(v) => v,
        None => return None,
    };
    Some(((a * 16 + b) * 16 + c) * 16 + e)
}

/// Whether the comment bytes `bytes` hold a unicode escape that translates to
/// a line terminator, `*` or `/`: one preceded by an odd run of backslashes.
pub fn holds_hazardous_escape(bytes: &[u8]) -> (r: bool)
    ensures
        r == has_hazardous_escape(bytes@),
{
    let n = bytes.len();
    let mut index: usize = 0;
    while index < n
        invariant
            n == bytes@.len(),
            index <= n,
            index < n && bytes@[index as int] == 0x5c ==> (index == 0 || bytes@[index - 1]
                != 0x5c),
            forall|i: int, r: int|
                #![trigger backslash_run(bytes@, i, r)]
                i < index && backslash_run(bytes@, i, r) ==> !(r % 2 == 1 && (escape_of(
                    bytes@.skip(i + r),
                ) matches Some(v) && is_hazardous_value(v))),
        decreases n - index,
    {
        if bytes[index] != 0x5c {
            proof {
                assert forall|i: int, r: int|
                    #![trigger backslash_run(bytes@, i, r)]
                    i < index + 1 && backslash_run(bytes@, i, r) implies !(r % 2 == 1 && (
                    escape_of(bytes@.skip(i + r)) matches Some(v) && is_hazardous_value(v))) by {
                    if i == index {
                        assert(bytes@[i] == 0x5c);
                    }
                }
            }
            index = index + 1;
            continue;
        }
        let mut run: usize = 0;
        while index + run < n && bytes[index + run] == 0x5c
            invariant
                n == bytes@.len(),
                index < n,
                index + run <= n,
                forall|k: int| index <= k < index + run ==> bytes@[k] == 0x5c,
            decreases n - index - run,
        {
            run = run + 1;
        }
        assert(run >= 1) by {
            assert(bytes@[index as int] == 0x5c);
        }
        assert(backslash_run(bytes@, index as int, run as int));
        let after = slice_range(bytes, index + run, n);
        assert(after@ =~= bytes@.skip(index + run));
        if run % 2 == 1 {
            if let Some(value) = escape_value(after.as_slice()) {
                if value == 0x000A || value == 0x000D || value == 0x002A || value == 0x002F {
                    return true;
                }
            }
        }
        proof {
            assert forall|i: int, r: int|
                #![trigger backslash_run(bytes@, i, r)]
                i < index + run && backslash_run(bytes@, i, r) implies !(r % 2 == 1 && (escape_of(
                bytes@.skip(i + r),
            ) matches Some(v) && is_hazardous_value(v))) by {
                if i == index {
                    if r < run {
                        assert(bytes@[i + r] == 0x5c);
                    } else if r > run {
                        assert(bytes@[index + run] == 0x5c);
                    }
                } else if i > index {
                    assert(bytes@[i - 1] == 0x5c);
                }
            }
        }
        index = index + run;
    }
    false
}

/// Whether a comment node in the subtree of node `i` holds a hazardous
/// escape; the search does not look below a comment.
pub open spec fn subtree_has_hazard(t: Seq<SyntaxNode>, i: usize, source: Seq<u8>) -> bool
    decreases t.len() - i, t[i as int].children@.len() + 1,
{
    if i >= t.len() {
        false
    } else if t[i as int].kind@ == "line_comment"@ || t[i as int].kind@ == "block_comment"@ {
        has_hazardous_escape(source.subrange(t[i as int].start as int, t[i as int].end as int))
    } else {
        child_has_hazard(t, i, 0, source)
    }
}

/// Whether the subtree of a child of node `i`, from the `k`-th on, holds a
/// hazardous escape in a comment.
pub open spec fn child_has_hazard(t: Seq<SyntaxNode>, i: usize, k: int, source: Seq<u8>) -> bool
    decreases t.len() - i, t[i as int].children@.len() - k,
{
    if i >= t.len() {
        false
    } else {
        let kids = t[i as int].children@;
        if k < 0 || k >= kids.len() {
            false
        } else {
            (i < kids[k] < t.len() && subtree_has_hazard(t, kids[k], source)) || child_has_hazard(
                t,
                i,
                k + 1,
                source,
            )
        }
    }
}

/// Whether a comment in the subtree of node `i` holds a hazardous escape.
pub fn node_has_escape_hazard(tree: &SyntaxTree, i: usize, source: &[u8]) -> (r: bool)
    requires
        well_formed(tree.nodes@, source@.len()),
        i < tree.nodes@.len(),
    ensures
        r == subtree_has_hazard(tree.nodes@, i, source@),
    decreases tree.nodes@.len() - i,
{
    let ghost t = tree.nodes@;
    let node = &tree.nodes[i];
    if node.is_kind("line_comment") || node.is_kind("block_comment") {
        let bytes = slice_range(source, node.start, node.end);
        return holds_hazardous_escape(bytes.as_slice());
    }
    let mut k: usize = 0;
    while k < node.children.len()
        invariant
            well_formed(t, source@.len()),
            t == tree.nodes@,
            i < t.len(),
            *node == t[i as int],
            k <= node.children@.len(),
            !(node.kind@ == "line_comment"@ || node.kind@ == "block_comment"@),
            subtree_has_hazard(t, i, source@) == child_has_hazard(t, i, k as int, source@),
        decreases node.children@.len() - k,
    {
        let c = node.children[k];
        assert(i < c < t.len());
        if node_has_escape_hazard(tree, c, source) {
            return true;
        }
        k = k + 1;
    }
    false
}

/// True when a comment of the file holds a hazardous unicode escape, so the
/// whole file must be left byte-identical: the Java bail-out.
pub fn has_escape_hazard(tree: &SyntaxTree, source: &[u8]) -> (r: bool)
    requires
        well_formed(tree.nodes@, source@.len()),
    ensures
        r == subtree_has_hazard(tree.nodes@, 0, source@),
{
    node_has_escape_hazard(tree, 0, source)
}

/// The Java comment policy. Stripping keeps no comment at all; there is no
/// prologue and no column-0 pin, and a file holding a hazardous escape in a
/// comment is left alone at both settings.
#[derive(Clone, Copy, Debug)]
pub struct JavaCommentPolicy {
    pub strip_comments: bool,
}

/// The stripping Java policy.
pub fn comment_policy() -> (r: JavaCommentPolicy)
    ensures
        r.strip_comments,
{
    JavaCommentPolicy { strip_comments: true }
}

impl CommentPolicy for JavaCommentPolicy {
    open spec fn keep_spec(&self, bytes: Seq<u8>) -> bool {
        !self.strip_comments
    }

    open spec fn prologue_spec(&self, t: Seq<SyntaxNode>, source: Seq<u8>) -> (usize, usize) {
        (0usize, 0usize)
    }

    open spec fn bail_spec(&self, t: Seq<SyntaxNode>, source: Seq<u8>) -> bool {
        subtree_has_hazard(t, 0, source)
    }

    open spec fn pin_spec(&self, source: Seq<u8>, span: Span) -> bool {
        false
    }

    fn keep(&self, bytes: &[u8]) -> (r: bool) {
        !self.strip_comments || is_semantic_comment(bytes)
    }

    fn prologue(&self, tree: &SyntaxTree, source: &[u8]) -> (r: (usize, usize)) {
        no_prologue(tree, source)
    }

    fn bail(&self, tree: &SyntaxTree, source: &[u8]) -> (r: bool) {
        has_escape_hazard(tree, source)
    }

    fn pin(&self, source: &[u8], span: Span) -> (r: bool) {
        false
    }
}

} // verus!
