//! The Go comment hazard surface: which comments carry meaning to the Go
//! toolchain, which head of the file must survive verbatim, and which files
//! may not be touched at all.
use vstd::prelude::*;
use crate::engine::tree::{SyntaxNode, SyntaxTree, ordered, well_formed, slice_range};
use crate::text::is_prefix;
use crate::engine::plan::CommentPolicy;
use crate::engine::span::Span;

verus! {

/// A lowercase ASCII letter or a digit: the bytes a directive name is made of.
pub open spec fn is_directive_byte(b: u8) -> bool {
    (0x61 <= b <= 0x7a) || (0x30 <= b <= 0x39)
}

pub open spec fn line_space() -> Seq<u8> {
    seq![0x6cu8, 0x69, 0x6e, 0x65, 0x20]
}

pub open spec fn extern_space() -> Seq<u8> {
    seq![0x65u8, 0x78, 0x74, 0x65, 0x72, 0x6e, 0x20]
}

pub open spec fn export_space() -> Seq<u8> {
    seq![0x65u8, 0x78, 0x70, 0x6f, 0x72, 0x74, 0x20]
}

/// `[a-z0-9]+:[a-z0-9]` at the start of `t`: a first colon that is not the
/// first byte, every byte before it and the one byte after it from the set.
pub open spec fn colon_shaped(t: Seq<u8>) -> bool {
    exists|c: int|
        #![trigger t[c]]
        0 < c && c + 1 < t.len() && t[c] == 0x3a && is_directive_byte(t[c + 1]) && (forall|j: int|
            0 <= j < c ==> is_directive_byte(#[trigger] t[j]))
}

/// Go's `isDirective` on a comment's own bytes: a `//` comment whose text
/// starts with `line `, `extern ` or `export `, or is colon-shaped.
pub open spec fn is_directive(bytes: Seq<u8>) -> bool {
    &&& bytes.len() >= 2
    &&& bytes[0] == 0x2f && bytes[1] == 0x2f
    &&& {
        let t = bytes.skip(2);
        is_prefix(line_space(), t) || is_prefix(extern_space(), t) || is_prefix(export_space(), t)
            || colon_shaped(t)
    }
}

/// ASCII whitespace as `u8::is_ascii_whitespace` has it.
pub open spec fn is_ascii_ws(b: u8) -> bool {
    b == 0x20 || b == 0x09 || b == 0x0a || b == 0x0c || b == 0x0d
}

/// `s` without its leading ASCII whitespace.
pub open spec fn trim_start(s: Seq<u8>) -> Seq<u8>
    decreases s.len(),
{
    if s.len() > 0 && is_ascii_ws(s[0]) {
        trim_start(s.skip(1))
    } else {
        s
    }
}

/// `s` without its trailing ASCII whitespace.
pub open spec fn trim_end(s: Seq<u8>) -> Seq<u8>
    decreases s.len(),
{
    if s.len() > 0 && is_ascii_ws(s.last()) {
        trim_end(s.drop_last())
    } else {
        s
    }
}

pub open spec fn go_build() -> Seq<u8> {
    seq![0x2fu8, 0x2f, 0x67, 0x6f, 0x3a, 0x62, 0x75, 0x69, 0x6c, 0x64]
}

pub open spec fn plus_build() -> Seq<u8> {
    seq![0x2bu8, 0x62, 0x75, 0x69, 0x6c, 0x64]
}

/// A build constraint of either generation on a trimmed line: `//go:build`,
/// or `//` then optional whitespace then `+build`.
pub open spec fn is_constraint(line: Seq<u8>) -> bool {
    let t = trim_end(trim_start(line));
    &&& t.len() >= 2 && t[0] == 0x2f && t[1] == 0x2f
    &&& is_prefix(go_build(), t) || is_prefix(plus_build(), trim_start(t.skip(2)))
}

pub open spec fn block_line() -> Seq<u8> {
    seq![0x2fu8, 0x2a, 0x6c, 0x69, 0x6e, 0x65, 0x20]
}

/// The comments that must survive stripping: `//`-form directives, the block
/// line directive `/*line `, and build constraints.
pub open spec fn is_semantic(bytes: Seq<u8>) -> bool {
    is_directive(bytes) || is_prefix(block_line(), bytes) || is_constraint(bytes)
}

fn is_dir_byte(b: u8) -> (r: bool)
    ensures
        r == is_directive_byte(b),
{
    (0x61 <= b && b <= 0x7a) || (0x30 <= b && b <= 0x39)
}

/// True when `bytes` is a `//`-form comment the Go toolchain reads as a
/// directive, wherever it sits.
pub fn is_directive_comment(bytes: &[u8]) -> (r: bool)
    ensures
        r == is_directive(bytes@),
{
    if bytes.len() < 2 || bytes[0] != 0x2f || bytes[1] != 0x2f {
        return false;
    }
    let ghost t = bytes@.skip(2);
    let text = crate::engine::tree::slice_range(bytes, 2, bytes.len());
    assert(text@ =~= t);
    if crate::text::bytes_start_with(text.as_slice(), &[0x6cu8, 0x69, 0x6e, 0x65, 0x20]) {
        assert(seq![0x6cu8, 0x69, 0x6e, 0x65, 0x20] =~= line_space());
        return true;
    }
    if crate::text::bytes_start_with(text.as_slice(), &[0x65u8, 0x78, 0x74, 0x65, 0x72, 0x6e, 0x20]) {
        assert(seq![0x65u8, 0x78, 0x74, 0x65, 0x72, 0x6e, 0x20] =~= extern_space());
        return true;
    }
    if crate::text::bytes_start_with(text.as_slice(), &[0x65u8, 0x78, 0x70, 0x6f, 0x72, 0x74, 0x20]) {
        assert(seq![0x65u8, 0x78, 0x70, 0x6f, 0x72, 0x74, 0x20] =~= export_space());
        return true;
    }
    proof {
        assert(seq![0x6cu8, 0x69, 0x6e, 0x65, 0x20] =~= line_space());
        assert(seq![0x65u8, 0x78, 0x74, 0x65, 0x72, 0x6e, 0x20] =~= extern_space());
        assert(seq![0x65u8, 0x78, 0x70, 0x6f, 0x72, 0x74, 0x20] =~= export_space());
    }
    // Every byte before the first colon has to be from the set; the first
    // byte that is not ends the scan.
    let n = text.len();
    let mut c: usize = 0;
    while c < n && is_dir_byte(text[c])
        invariant
            n == t.len(),
            text@ == t,
            c <= n,
            forall|j: int| 0 <= j < c ==> is_directive_byte(#[trigger] t[j]),
        decreases n - c,
    {
        c = c + 1;
    }
    let r = c > 0 && c + 1 < n && text[c] == 0x3a && is_dir_byte(text[c + 1]);
    proof {
        if r {
            assert(colon_shaped(t));
        } else if colon_shaped(t) {
            let k = choose|k: int|
                #![trigger t[k]]
                0 < k && k + 1 < t.len() && t[k] == 0x3a && is_directive_byte(t[k + 1]) && (
                forall|j: int| 0 <= j < k ==> is_directive_byte(#[trigger] t[j]));
            if k < c {
                assert(is_directive_byte(t[k]));
            } else if k > c {
                assert(c < n);
                assert(is_directive_byte(t[c as int]));
            }
        }
    }
    r
}

fn is_ws(b: u8) -> (r: bool)
    ensures
        r == is_ascii_ws(b),
{
    b == 0x20 || b == 0x09 || b == 0x0a || b == 0x0c || b == 0x0d
}

proof fn lemma_trim_start_skip(s: Seq<u8>, i: int)
    requires
        0 <= i <= s.len(),
        forall|j: int| 0 <= j < i ==> is_ascii_ws(#[trigger] s[j]),
    ensures
        trim_start(s) == trim_start(s.skip(i)),
    decreases i,
{
    if i > 0 {
        assert(s.skip(1).skip(i - 1) =~= s.skip(i));
        assert forall|j: int| 0 <= j < i - 1 implies is_ascii_ws(#[trigger] s.skip(1)[j]) by {
            assert(s.skip(1)[j] == s[j + 1]);
        }
        lemma_trim_start_skip(s.skip(1), i - 1);
    } else {
        assert(s.skip(0) =~= s);
    }
}

proof fn lemma_trim_end_take(s: Seq<u8>, e: int)
    requires
        0 <= e <= s.len(),
        forall|j: int| e <= j < s.len() ==> is_ascii_ws(#[trigger] s[j]),
    ensures
        trim_end(s) == trim_end(s.take(e)),
    decreases s.len() - e,
{
    if e < s.len() {
        assert(s.drop_last().take(e) =~= s.take(e));
        lemma_trim_end_take(s.drop_last(), e);
    } else {
        assert(s.take(e) =~= s);
    }
}

/// The bounds of `s` with its ASCII whitespace trimmed from both ends.
fn trim_bounds(s: &[u8]) -> (r: (usize, usize))
    ensures
        r.0 <= r.1 <= s@.len(),
        s@.subrange(r.0 as int, r.1 as int) == trim_end(trim_start(s@)),
        trim_start(s@) == s@.skip(r.0 as int),
{
    let n = s.len();
    let mut a: usize = 0;
    while a < n && is_ws(s[a])
        invariant
            n == s@.len(),
            a <= n,
            forall|j: int| 0 <= j < a ==> is_ascii_ws(#[trigger] s@[j]),
        decreases n - a,
    {
        a = a + 1;
    }
    proof {
        lemma_trim_start_skip(s@, a as int);
        let u = s@.skip(a as int);
        assert(u.len() == 0 || !is_ascii_ws(u[0]));
        assert(trim_start(u) == u);
    }
    let mut b: usize = n;
    while b > a && is_ws(s[b - 1])
        invariant
            n == s@.len(),
            a <= b <= n,
            forall|j: int| b <= j < n ==> is_ascii_ws(#[trigger] s@[j]),
        decreases b,
    {
        b = b - 1;
    }
    proof {
        let u = s@.skip(a as int);
        let k = (b - a) as int;
        assert forall|j: int| k <= j < u.len() implies is_ascii_ws(#[trigger] u[j]) by {
            assert(u[j] == s@[j + a]);
        }
        lemma_trim_end_take(u, k);
        let w = u.take(k);
        assert(w =~= s@.subrange(a as int, b as int));
        if w.len() > 0 {
            assert(w.last() == s@[b - 1]);
        }
        assert(trim_end(w) == w);
    }
    (a, b)
}

/// True when `line` is a build constraint of either generation, after
/// trimming: `//go:build`, or `//` followed by optional whitespace and
/// `+build`.
pub fn is_build_constraint(line: &[u8]) -> (r: bool)
    ensures
        r == is_constraint(line@),
{
    let (a, b) = trim_bounds(line);
    let t = slice_range(line, a, b);
    if t.len() < 2 || t[0] != 0x2f || t[1] != 0x2f {
        return false;
    }
    assert(seq![0x2fu8, 0x2f, 0x67, 0x6f, 0x3a, 0x62, 0x75, 0x69, 0x6c, 0x64] =~= go_build());
    assert(seq![0x2bu8, 0x62, 0x75, 0x69, 0x6c, 0x64] =~= plus_build());
    if crate::text::bytes_start_with(
        t.as_slice(),
        &[0x2fu8, 0x2f, 0x67, 0x6f, 0x3a, 0x62, 0x75, 0x69, 0x6c, 0x64],
    ) {
        return true;
    }
    let rest = slice_range(t.as_slice(), 2, t.len());
    assert(rest@ =~= t@.skip(2));
    let (c, _d) = trim_bounds(rest.as_slice());
    let after = slice_range(rest.as_slice(), c, rest.len());
    assert(after@ =~= rest@.skip(c as int));
    crate::text::bytes_start_with(after.as_slice(), &[0x2bu8, 0x62, 0x75, 0x69, 0x6c, 0x64])
}

/// True when a comment has to survive stripping: a `//`-form directive, the
/// block line directive `/*line `, or a build constraint of either
/// generation. Everything else is decoration.
pub fn is_semantic_comment(bytes: &[u8]) -> (r: bool)
    ensures
        r == is_semantic(bytes@),
{
    assert(seq![0x2fu8, 0x2a, 0x6c, 0x69, 0x6e, 0x65, 0x20] =~= block_line());
    is_directive_comment(bytes) || crate::text::bytes_start_with(
        bytes,
        &[0x2fu8, 0x2a, 0x6c, 0x69, 0x6e, 0x65, 0x20],
    ) || is_build_constraint(bytes)
}

} // verus!

verus! {

/// Whether the byte at `start` begins its line: byte 0 always does.
pub open spec fn begins_line(source: Seq<u8>, start: int) -> bool {
    start == 0 || source[start - 1] == 0x0a
}

/// Whether the byte at `start` is the first of its line.
pub fn starts_a_line(source: &[u8], start: usize) -> (r: bool)
    requires
        start <= source@.len(),
    ensures
        r == begins_line(source@, start as int),
{
    start == 0 || source[start - 1] == 0x0a
}

/// The two spellings of the cgo pseudo-package's import path.
pub open spec fn is_c_path(bytes: Seq<u8>) -> bool {
    bytes == seq![0x22u8, 0x43, 0x22] || bytes == seq![0x60u8, 0x43, 0x60]
}

/// Whether these are the bytes of an import path naming `"C"`.
pub fn is_c_import_path(bytes: &[u8]) -> (r: bool)
    ensures
        r == is_c_path(bytes@),
{
    let r = bytes.len() == 3 && bytes[1] == 0x43 && ((bytes[0] == 0x22 && bytes[2] == 0x22) || (
    bytes[0] == 0x60 && bytes[2] == 0x60));
    proof {
        if bytes@ == seq![0x22u8, 0x43, 0x22] {
            assert(bytes@[0] == 0x22 && bytes@[1] == 0x43 && bytes@[2] == 0x22);
        }
        if bytes@ == seq![0x60u8, 0x43, 0x60] {
            assert(bytes@[0] == 0x60 && bytes@[1] == 0x43 && bytes@[2] == 0x60);
        }
        if r {
            assert(bytes@ =~= seq![0x22u8, 0x43, 0x22] || bytes@ =~= seq![0x60u8, 0x43, 0x60]);
        }
    }
    r
}

/// True when emitting `span` at the start of a line would turn an ordinary
/// comment into a directive: a comment, not already at the start of its
/// line, whose bytes are directive-shaped.
pub fn is_promotable_directive(source: &[u8], span: crate::engine::span::Span) -> (r: bool)
    requires
        span.start <= span.end <= source@.len(),
    ensures
        r == (span.kind == crate::engine::span::SpanKind::Comment && !begins_line(
            source@,
            span.start as int,
        ) && is_directive(source@.subrange(span.start as int, span.end as int))),
{
    if span.kind != crate::engine::span::SpanKind::Comment {
        return false;
    }
    if starts_a_line(source, span.start) {
        return false;
    }
    let bytes = slice_range(source, span.start, span.end);
    is_directive_comment(bytes.as_slice())
}

/// The bytes node `c` of `t` covers.
pub open spec fn node_bytes(t: Seq<SyntaxNode>, c: usize, source: Seq<u8>) -> Seq<u8> {
    source.subrange(t[c as int].start as int, t[c as int].end as int)
}

/// Whether a child of node `i`, from the `k`-th on, covers the bytes of an
/// import path naming `"C"`.
pub open spec fn child_is_c_path(t: Seq<SyntaxNode>, i: usize, k: int, source: Seq<u8>) -> bool
    decreases t[i as int].children@.len() - k,
{
    let kids = t[i as int].children@;
    if k < 0 || k >= kids.len() {
        false
    } else {
        (kids[k] < t.len() && is_c_path(node_bytes(t, kids[k], source))) || child_is_c_path(
            t,
            i,
            k + 1,
            source,
        )
    }
}

/// Whether the subtree of node `i` holds an `import_spec` one of whose
/// children covers the bytes `"C"` or `` `C` ``. The search does not look
/// below an `import_spec`.
pub open spec fn subtree_imports_c(t: Seq<SyntaxNode>, i: usize, source: Seq<u8>) -> bool
    decreases t.len() - i, t[i as int].children@.len() + 1,
{
    if i >= t.len() {
        false
    } else if t[i as int].kind@ == "import_spec"@ {
        child_is_c_path(t, i, 0, source)
    } else {
        child_imports_c(t, i, 0, source)
    }
}

/// Whether the subtree of a child of node `i`, from the `k`-th on, holds an
/// import of `"C"`.
pub open spec fn child_imports_c(t: Seq<SyntaxNode>, i: usize, k: int, source: Seq<u8>) -> bool
    decreases t.len() - i, t[i as int].children@.len() - k,
{
    if i >= t.len() {
        false
    } else {
        let kids = t[i as int].children@;
        if k < 0 || k >= kids.len() {
            false
        } else {
            (i < kids[k] < t.len() && subtree_imports_c(t, kids[k], source)) || child_imports_c(
                t,
                i,
                k + 1,
                source,
            )
        }
    }
}

/// Whether the subtree of node `i` contains an import of `"C"`.
pub fn node_imports_c(tree: &SyntaxTree, i: usize, source: &[u8]) -> (r: bool)
    requires
        well_formed(tree.nodes@, source@.len()),
        i < tree.nodes@.len(),
    ensures
        r == subtree_imports_c(tree.nodes@, i, source@),
    decreases tree.nodes@.len() - i,
{
    let ghost t = tree.nodes@;
    let node = &tree.nodes[i];
    let spec_node = node.is_kind("import_spec");
    let mut k: usize = 0;
    while k < node.children.len()
        invariant
            well_formed(t, source@.len()),
            t == tree.nodes@,
            i < t.len(),
            *node == t[i as int],
            k <= node.children@.len(),
            spec_node == (node.kind@ == "import_spec"@),
            spec_node ==> subtree_imports_c(t, i, source@) == child_is_c_path(
                t,
                i,
                k as int,
                source@,
            ),
            !spec_node ==> subtree_imports_c(t, i, source@) == child_imports_c(
                t,
                i,
                k as int,
                source@,
            ),
        decreases node.children@.len() - k,
    {
        let c = node.children[k];
        assert(i < c < t.len());
        let child = &tree.nodes[c];
        if spec_node {
            let bytes = slice_range(source, child.start, child.end);
            if is_c_import_path(bytes.as_slice()) {
                return true;
            }
        } else {
            if node_imports_c(tree, c, source) {
                return true;
            }
        }
        k = k + 1;
    }
    false
}

/// True when the file imports `"C"` and must therefore be left
/// byte-identical: the whole-file bail-out of the Go comment policy.
pub fn imports_c(tree: &SyntaxTree, source: &[u8]) -> (r: bool)
    requires
        well_formed(tree.nodes@, source@.len()),
    ensures
        r == subtree_imports_c(tree.nodes@, 0, source@),
{
    node_imports_c(tree, 0, source)
}

/// The start byte of the first `package_clause` among the root's children
/// from the `k`-th on.
pub open spec fn first_package_from(t: Seq<SyntaxNode>, k: int) -> Option<usize>
    decreases t[0].children@.len() - k,
{
    let kids = t[0].children@;
    if k < 0 || k >= kids.len() || kids[k] >= t.len() {
        None
    } else if t[kids[k] as int].kind@ == "package_clause"@ {
        Some(t[kids[k] as int].start)
    } else {
        first_package_from(t, k + 1)
    }
}

/// The start byte of the first `package_clause` child of the root, if any.
pub open spec fn package_start(t: Seq<SyntaxNode>) -> Option<usize> {
    first_package_from(t, 0)
}

/// The start byte of the file's package clause, if it has one: a direct
/// child of the root.
pub fn package_clause_start(tree: &SyntaxTree) -> (r: Option<usize>)
    requires
        ordered(tree.nodes@),
    ensures
        r == package_start(tree.nodes@),
{
    let ghost t = tree.nodes@;
    let root = &tree.nodes[0];
    let mut i: usize = 0;
    while i < root.children.len()
        invariant
            t == tree.nodes@,
            ordered(t),
            *root == t[0],
            i <= root.children@.len(),
            package_start(t) == first_package_from(t, i as int),
        decreases root.children@.len() - i,
    {
        let c = root.children[i];
        assert(0 < c < t.len());
        if tree.nodes[c].is_kind("package_clause") {
            return Some(tree.nodes[c].start);
        }
        i = i + 1;
    }
    None
}

/// Whether some `\n`-separated line of `region` is a build constraint.
pub open spec fn has_constraint_line(region: Seq<u8>) -> bool {
    exists|a: int, b: int|
        #![trigger region.subrange(a, b)]
        0 <= a <= b <= region.len() && (a == 0 || region[a - 1] == 0x0a) && (b == region.len()
            || region[b] == 0x0a) && (forall|k: int| a <= k < b ==> region[k] != 0x0a)
            && is_constraint(region.subrange(a, b))
}

/// The head of the file that must be reproduced byte for byte: everything
/// before the package clause when some line of it is a build constraint,
/// otherwise nothing.
pub open spec fn prologue_of(t: Seq<SyntaxNode>, source: Seq<u8>) -> (usize, usize) {
    match package_start(t) {
        Some(end) => if end <= source.len() && has_constraint_line(source.subrange(0, end as int)) {
            (0, end)
        } else {
            (0, 0)
        },
        None => (0, 0),
    }
}

proof fn lemma_first_package_within(t: Seq<SyntaxNode>, len: nat, k: int)
    requires
        well_formed(t, len),
    ensures
        first_package_from(t, k) matches Some(e) ==> e <= len,
    decreases t[0].children@.len() - k,
{
    let kids = t[0].children@;
    if k < 0 || k >= kids.len() || kids[k] >= t.len() {
    } else if t[kids[k] as int].kind@ == "package_clause"@ {
        assert(t[kids[k] as int].start <= t[kids[k] as int].end);
    } else {
        lemma_first_package_within(t, len, k + 1);
    }
}

/// Whether some `\n`-separated line of `region` is a build constraint.
fn region_has_constraint_line(region: &[u8]) -> (r: bool)
    ensures
        r == has_constraint_line(region@),
{
    let n = region.len();
    // Scan the lines one at a time: `a` is the start of the current line.
    let mut a: usize = 0;
    loop
        invariant
            n == region@.len(),
            a <= n,
            a == 0 || region@[a - 1] == 0x0a,
            forall|x: int, y: int|
                #![trigger region@.subrange(x, y)]
                0 <= x <= y <= n && x < a && (x == 0 || region@[x - 1] == 0x0a) && (y == n
                    || region@[y] == 0x0a) && (forall|k: int| x <= k < y ==> region@[k] != 0x0a)
                    ==> !is_constraint(region@.subrange(x, y)),
        decreases n - a,
    {
        let mut b = a;
        while b < n && region[b] != 0x0a
            invariant
                a <= b <= n,
                n == region@.len(),
                forall|k: int| a <= k < b ==> region@[k] != 0x0a,
            decreases n - b,
        {
            b = b + 1;
        }
        let line = slice_range(region, a, b);
        if is_build_constraint(line.as_slice()) {
            assert(region@.subrange(a as int, b as int) == line@);
            return true;
        }
        proof {
            assert forall|x: int, y: int|
                #![trigger region@.subrange(x, y)]
                0 <= x <= y <= n && x < a + 1 && (x == 0 || region@[x - 1] == 0x0a) && (y == n
                    || region@[y] == 0x0a) && (forall|k: int| x <= k < y ==> region@[k] != 0x0a)
                    implies !is_constraint(region@.subrange(x, y)) by {
                if x == a {
                    if y < b {
                        assert(region@[y] != 0x0a);
                    } else if y > b {
                        assert(region@[b as int] == 0x0a);
                    }
                }
            }
        }
        if b == n {
            proof {
                assert forall|x: int, y: int|
                    #![trigger region@.subrange(x, y)]
                    0 <= x <= y <= n && (x == 0 || region@[x - 1] == 0x0a) && (y == n
                        || region@[y] == 0x0a) && (forall|k: int| x <= k < y ==> region@[k] != 0x0a)
                        implies !is_constraint(region@.subrange(x, y)) by {
                    if x > a {
                        assert(region@[x - 1] != 0x0a);
                    }
                }
            }
            return false;
        }
        proof {
            assert forall|x: int, y: int|
                #![trigger region@.subrange(x, y)]
                0 <= x <= y <= n && x < b + 1 && (x == 0 || region@[x - 1] == 0x0a) && (y == n
                    || region@[y] == 0x0a) && (forall|k: int| x <= k < y ==> region@[k] != 0x0a)
                    implies !is_constraint(region@.subrange(x, y)) by {
                if a < x && x <= b {
                    assert(region@[x - 1] != 0x0a);
                }
            }
        }
        a = b + 1;
    }
}

/// The head of the file that has to be reproduced byte for byte, as a
/// `start..end` pair; `0..0` when there is none.
pub fn build_constraint_prologue(tree: &SyntaxTree, source: &[u8]) -> (r: (usize, usize))
    requires
        well_formed(tree.nodes@, source@.len()),
    ensures
        r == prologue_of(tree.nodes@, source@),
{
    proof {
        lemma_first_package_within(tree.nodes@, source@.len(), 0);
    }
    let end = match package_clause_start(tree) {
        None => return (0, 0),
        Some(end) => end,
    };
    let region = slice_range(source, 0, end);
    if region_has_constraint_line(region.as_slice()) {
        (0, end)
    } else {
        (0, 0)
    }
}

/// The Go comment policy. Stripping keeps only the semantic comments;
/// the build-constraint prologue, the column-0 pin on directive-shaped
/// comments and the cgo bail-out hold at both settings.
#[derive(Clone, Copy, Debug)]
pub struct GoCommentPolicy {
    pub strip_comments: bool,
}

/// The stripping Go policy.
pub fn comment_policy() -> (r: GoCommentPolicy)
    ensures
        r.strip_comments,
{
    GoCommentPolicy { strip_comments: true }
}

impl CommentPolicy for GoCommentPolicy {
    open spec fn keep_spec(&self, bytes: Seq<u8>) -> bool {
        !self.strip_comments || is_semantic(bytes)
    }

    open spec fn prologue_spec(&self, t: Seq<SyntaxNode>, source: Seq<u8>) -> (usize, usize) {
        prologue_of(t, source)
    }

    open spec fn bail_spec(&self, t: Seq<SyntaxNode>, source: Seq<u8>) -> bool {
        subtree_imports_c(t, 0, source)
    }

    open spec fn pin_spec(&self, source: Seq<u8>, span: Span) -> bool {
        span.kind == crate::engine::span::SpanKind::Comment && !begins_line(
            source,
            span.start as int,
        ) && is_directive(source.subrange(span.start as int, span.end as int))
    }

    fn keep(&self, bytes: &[u8]) -> (r: bool) {
        !self.strip_comments || is_semantic_comment(bytes)
    }

    fn prologue(&self, tree: &SyntaxTree, source: &[u8]) -> (r: (usize, usize)) {
        build_constraint_prologue(tree, source)
    }

    fn bail(&self, tree: &SyntaxTree, source: &[u8]) -> (r: bool) {
        imports_c(tree, source)
    }

    fn pin(&self, source: &[u8], span: Span) -> (r: bool) {
        is_promotable_directive(source, span)
    }
}

} // verus!
