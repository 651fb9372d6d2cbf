//! From a syntax tree to a rewrite plan: which bytes are protected, which
//! belong to comments that go, and which gaps are pinned. A language supplies
//! its node kinds and its comment policy; the rest is grammar-independent.
use vstd::prelude::*;
use crate::engine::emit::{
    Layout,
    Plan,
    emit_from,
    emitted,
    law_fully_protected_is_identity,
    layout_ok,
    lemma_emission_reaches,
    lemma_protected_run,
    pending,
};
use crate::engine::span::{Span, SpanKind};
use crate::engine::tree::{SyntaxNode, SyntaxTree, slice_range, well_formed};

verus! {

/// What a grammar is, as far as the engine cares: which node kinds are
/// comments, which are literals whose bytes may never be touched, and
/// whether the emitter must keep line structure.
pub struct LanguageKinds {
    pub comment_kinds: Vec<&'static str>,
    pub protected_kinds: Vec<&'static str>,
    pub newline_sensitive: bool,
}

/// Whether `kind` is one of `kinds`.
pub open spec fn listed(kinds: Seq<&'static str>, kind: Seq<char>) -> bool {
    exists|j: int| 0 <= j < kinds.len() && (#[trigger] kinds[j])@ == kind
}

/// Whether `kind` is one of `kinds`.
pub fn is_listed(kinds: &Vec<&'static str>, kind: &str) -> (r: bool)
    ensures
        r == listed(kinds@, kind@),
{
    let mut j: usize = 0;
    while j < kinds.len()
        invariant
            j <= kinds@.len(),
            forall|x: int| 0 <= x < j ==> (#[trigger] kinds@[x])@ != kind@,
        decreases kinds@.len() - j,
    {
        if crate::text::str_eq(kinds[j], kind) {
            return true;
        }
        j = j + 1;
    }
    false
}

/// A language's comment hazard surface: which comments survive stripping,
/// which head of the file is reproduced verbatim, when a whole file is left
/// alone, and which kept comments may never be moved to column 0.
pub trait CommentPolicy {
    /// Whether a comment with these bytes is kept.
    spec fn keep_spec(&self, bytes: Seq<u8>) -> bool;

    /// The byte range reproduced verbatim at the head of the file.
    spec fn prologue_spec(&self, t: Seq<SyntaxNode>, source: Seq<u8>) -> (usize, usize);

    /// Whether the whole file is left byte-identical.
    spec fn bail_spec(&self, t: Seq<SyntaxNode>, source: Seq<u8>) -> bool;

    /// Whether the gap before a kept comment is pinned.
    spec fn pin_spec(&self, source: Seq<u8>, span: Span) -> bool;

    fn keep(&self, bytes: &[u8]) -> (r: bool)
        ensures
            r == self.keep_spec(bytes@),
    ;

    fn prologue(&self, tree: &SyntaxTree, source: &[u8]) -> (r: (usize, usize))
        requires
            well_formed(tree.nodes@, source@.len()),
        ensures
            r == self.prologue_spec(tree.nodes@, source@),
            r.0 <= r.1 <= source@.len(),
    ;

    fn bail(&self, tree: &SyntaxTree, source: &[u8]) -> (r: bool)
        requires
            well_formed(tree.nodes@, source@.len()),
        ensures
            r == self.bail_spec(tree.nodes@, source@),
    ;

    fn pin(&self, source: &[u8], span: Span) -> (r: bool)
        requires
            span.start <= span.end <= source@.len(),
        ensures
            r == self.pin_spec(source@, span),
    ;
}

/// The bytes node `i` covers.
pub open spec fn covered(t: Seq<SyntaxNode>, i: int, source: Seq<u8>) -> Seq<u8> {
    source.subrange(t[i].start as int, t[i].end as int)
}

/// Whether node `i` covers byte `b`.
pub open spec fn covers(t: Seq<SyntaxNode>, i: int, b: int) -> bool {
    t[i].start <= b < t[i].end
}

/// Whether node `i` is a comment the policy keeps.
pub open spec fn kept_comment<P: CommentPolicy>(
    t: Seq<SyntaxNode>,
    i: int,
    source: Seq<u8>,
    kinds: LanguageKinds,
    policy: P,
) -> bool {
    listed(kinds.comment_kinds@, t[i].kind@) && policy.keep_spec(covered(t, i, source))
}

/// Whether node `i` is a comment the policy drops.
pub open spec fn dropped_comment<P: CommentPolicy>(
    t: Seq<SyntaxNode>,
    i: int,
    source: Seq<u8>,
    kinds: LanguageKinds,
    policy: P,
) -> bool {
    listed(kinds.comment_kinds@, t[i].kind@) && !policy.keep_spec(covered(t, i, source))
}

/// Whether node `i` protects the bytes it covers: a kept comment or a
/// protected literal.
pub open spec fn protecting<P: CommentPolicy>(
    t: Seq<SyntaxNode>,
    i: int,
    source: Seq<u8>,
    kinds: LanguageKinds,
    policy: P,
) -> bool {
    kept_comment(t, i, source, kinds, policy) || listed(kinds.protected_kinds@, t[i].kind@)
}

/// Whether byte `b` is copied verbatim: the file bailed out, or a kept
/// comment, a protected literal or the prologue covers it.
pub open spec fn protected_at<P: CommentPolicy>(
    t: Seq<SyntaxNode>,
    source: Seq<u8>,
    kinds: LanguageKinds,
    policy: P,
    b: int,
) -> bool {
    policy.bail_spec(t, source) || (exists|i: int|
        0 <= i < t.len() && protecting(t, i, source, kinds, policy) && #[trigger] covers(t, i, b))
        || (policy.prologue_spec(t, source).0 <= b < policy.prologue_spec(t, source).1)
}

/// Whether byte `b` belongs to a dropped comment.
pub open spec fn deleted_at<P: CommentPolicy>(
    t: Seq<SyntaxNode>,
    source: Seq<u8>,
    kinds: LanguageKinds,
    policy: P,
    b: int,
) -> bool {
    !policy.bail_spec(t, source) && exists|i: int|
        0 <= i < t.len() && dropped_comment(t, i, source, kinds, policy) && #[trigger] covers(
            t,
            i,
            b,
        )
}

/// Whether the gap ending at byte `b` is pinned: a kept comment starts there
/// and the policy pins it.
pub open spec fn pinned_at<P: CommentPolicy>(
    t: Seq<SyntaxNode>,
    source: Seq<u8>,
    kinds: LanguageKinds,
    policy: P,
    b: int,
) -> bool {
    !policy.bail_spec(t, source) && exists|i: int|
        0 <= i < t.len() && kept_comment(t, i, source, kinds, policy) && #[trigger] t[i].start
            == b && policy.pin_spec(
            source,
            Span { start: t[i].start, end: t[i].end, kind: SpanKind::Comment },
        )
}

/// The layout a tree, its source, a grammar and a policy determine.
pub open spec fn tree_layout<P: CommentPolicy>(
    t: Seq<SyntaxNode>,
    source: Seq<u8>,
    kinds: LanguageKinds,
    policy: P,
) -> Layout {
    Layout {
        source,
        protected: Seq::new(source.len(), |b: int| protected_at(t, source, kinds, policy, b)),
        deleted: Seq::new(source.len(), |b: int| deleted_at(t, source, kinds, policy, b)),
        pinned: Seq::new(source.len(), |b: int| pinned_at(t, source, kinds, policy, b)),
        newline_sensitive: kinds.newline_sensitive,
    }
}

/// `len` copies of `value`.
fn filled(len: usize, value: bool) -> (v: Vec<bool>)
    ensures
        v@ == Seq::new(len as nat, |b: int| value),
{
    let mut v: Vec<bool> = Vec::new();
    while v.len() < len
        invariant
            v@.len() <= len,
            forall|b: int| 0 <= b < v@.len() ==> v@[b] == value,
        decreases len - v@.len(),
    {
        v.push(value);
    }
    assert(v@ =~= Seq::new(len as nat, |b: int| value));
    v
}

/// Sets `v[start..end]`.
fn mark(v: &mut Vec<bool>, start: usize, end: usize)
    requires
        start <= end <= old(v)@.len(),
    ensures
        final(v)@.len() == old(v)@.len(),
        forall|b: int|
            0 <= b < old(v)@.len() ==> final(v)@[b] == (old(v)@[b] || (start <= b < end)),
{
    let mut k = start;
    while k < end
        invariant
            start <= k <= end <= v@.len(),
            v@.len() == old(v)@.len(),
            forall|b: int| 0 <= b < v@.len() ==> v@[b] == (old(v)@[b] || (start <= b < k)),
        decreases end - k,
    {
        v.set(k, true);
        k = k + 1;
    }
}

/// The rewrite plan of a parsed source: kept comments, protected literals
/// and the prologue are protected, dropped comments are deleted, and the
/// policy's pins are placed; a bailed-out file is protected whole.
pub fn build_plan<P: CommentPolicy>(
    tree: &SyntaxTree,
    source: &[u8],
    kinds: &LanguageKinds,
    policy: &P,
) -> (plan: Plan)
    requires
        well_formed(tree.nodes@, source@.len()),
    ensures
        plan.layout(source@, kinds.newline_sensitive) == tree_layout(
            tree.nodes@,
            source@,
            *kinds,
            *policy,
        ),
{
    let ghost t = tree.nodes@;
    let ghost src = source@;
    let n = source.len();
    let bail = policy.bail(tree, source);
    if bail {
        let plan = Plan {
            protected: filled(n, true),
            deleted: filled(n, false),
            pinned: filled(n, false),
        };
        proof {
            let l = tree_layout(t, src, *kinds, *policy);
            assert(plan.protected@ =~= l.protected);
            assert(plan.deleted@ =~= l.deleted);
            assert(plan.pinned@ =~= l.pinned);
        }
        return plan;
    }
    let mut protected = filled(n, false);
    let mut deleted = filled(n, false);
    let mut pinned = filled(n, false);
    let count = tree.nodes.len();
    let mut i: usize = 0;
    while i < count
        invariant
            t == tree.nodes@,
            src == source@,
            n == src.len(),
            count == t.len(),
            well_formed(t, n as nat),
            !policy.bail_spec(t, src),
            i <= count,
            protected@.len() == n && deleted@.len() == n && pinned@.len() == n,
            forall|b: int|
                0 <= b < n ==> protected@[b] == exists|x: int|
                    0 <= x < i && protecting(t, x, src, *kinds, *policy) && #[trigger] covers(
                        t,
                        x,
                        b,
                    ),
            forall|b: int|
                0 <= b < n ==> deleted@[b] == exists|x: int|
                    0 <= x < i && dropped_comment(t, x, src, *kinds, *policy) && #[trigger] covers(
                        t,
                        x,
                        b,
                    ),
            forall|b: int|
                0 <= b < n ==> pinned@[b] == exists|x: int|
                    0 <= x < i && kept_comment(t, x, src, *kinds, *policy) && #[trigger] t[x].start
                        == b && policy.pin_spec(
                        src,
                        Span { start: t[x].start, end: t[x].end, kind: SpanKind::Comment },
                    ),
        decreases count - i,
    {
        let node = &tree.nodes[i];
        assert(node.start <= node.end <= n);
        let comment = is_listed(&kinds.comment_kinds, node.kind.as_str());
        let literal = is_listed(&kinds.protected_kinds, node.kind.as_str());
        let mut keep = false;
        let mut pin = false;
        if comment {
            let bytes = slice_range(source, node.start, node.end);
            keep = policy.keep(bytes.as_slice());
            if keep {
                let span = Span { start: node.start, end: node.end, kind: SpanKind::Comment };
                pin = policy.pin(source, span);
            }
        }
        let ghost old_p = protected@;
        let ghost old_d = deleted@;
        let ghost old_pin = pinned@;
        if keep || literal {
            mark(&mut protected, node.start, node.end);
        }
        if comment && !keep {
            mark(&mut deleted, node.start, node.end);
        }
        if pin && node.start < n {
            pinned.set(node.start, true);
        }
        proof {
            let ii = i as int;
            assert((comment && keep) == kept_comment(t, ii, src, *kinds, *policy));
            assert((comment && !keep) == dropped_comment(t, ii, src, *kinds, *policy));
            assert((keep || literal) == protecting(t, ii, src, *kinds, *policy));
            assert forall|b: int| 0 <= b < n implies protected@[b] == exists|x: int|
                0 <= x < i + 1 && protecting(t, x, src, *kinds, *policy) && #[trigger] covers(
                    t,
                    x,
                    b,
                ) by {
                if protected@[b] && !old_p[b] {
                    assert(protecting(t, ii, src, *kinds, *policy) && covers(t, ii, b));
                }
                if old_p[b] {
                    let x = choose|x: int|
                        0 <= x < i && protecting(t, x, src, *kinds, *policy) && #[trigger] covers(
                            t,
                            x,
                            b,
                        );
                    assert(0 <= x < i + 1 && protecting(t, x, src, *kinds, *policy) && covers(
                        t,
                        x,
                        b,
                    ));
                }
            }
            assert forall|b: int| 0 <= b < n implies deleted@[b] == exists|x: int|
                0 <= x < i + 1 && dropped_comment(t, x, src, *kinds, *policy) && #[trigger] covers(
                    t,
                    x,
                    b,
                ) by {
                if deleted@[b] && !old_d[b] {
                    assert(dropped_comment(t, ii, src, *kinds, *policy) && covers(t, ii, b));
                }
                if old_d[b] {
                    let x = choose|x: int|
                        0 <= x < i && dropped_comment(t, x, src, *kinds, *policy)
                            && #[trigger] covers(t, x, b);
                    assert(0 <= x < i + 1 && dropped_comment(t, x, src, *kinds, *policy) && covers(
                        t,
                        x,
                        b,
                    ));
                }
            }
            assert forall|b: int| 0 <= b < n implies pinned@[b] == exists|x: int|
                0 <= x < i + 1 && kept_comment(t, x, src, *kinds, *policy) && #[trigger] t[x].start
                    == b && policy.pin_spec(
                    src,
                    Span { start: t[x].start, end: t[x].end, kind: SpanKind::Comment },
                ) by {
                if pinned@[b] && !old_pin[b] {
                    assert(t[ii].start == b);
                }
                if old_pin[b] {
                    let x = choose|x: int|
                        0 <= x < i && kept_comment(t, x, src, *kinds, *policy) && #[trigger] t[x].start
                            == b && policy.pin_spec(
                            src,
                            Span { start: t[x].start, end: t[x].end, kind: SpanKind::Comment },
                        );
                    assert(0 <= x < i + 1);
                }
            }
        }
        i = i + 1;
    }
    let (a, b) = policy.prologue(tree, source);
    mark(&mut protected, a, b);
    let plan = Plan { protected, deleted, pinned };
    proof {
        let l = tree_layout(t, src, *kinds, *policy);
        assert(plan.protected@ =~= l.protected);
        assert(plan.deleted@ =~= l.deleted);
        assert(plan.pinned@ =~= l.pinned);
    }
    plan
}

/// The token-minimal rewrite of a parsed source under a grammar and a
/// comment policy.
pub fn format_tree<P: CommentPolicy>(
    tree: &SyntaxTree,
    source: &[u8],
    kinds: &LanguageKinds,
    policy: &P,
) -> (out: Vec<u8>)
    requires
        well_formed(tree.nodes@, source@.len()),
    ensures
        out@ == emitted(tree_layout(tree.nodes@, source@, *kinds, *policy)),
{
    let plan = build_plan(tree, source, kinds, policy);
    crate::engine::emit::emit(source, &plan, kinds.newline_sensitive)
}

/// A file the policy bails out of is reproduced byte for byte, at every
/// setting of the policy.
pub proof fn law_bailed_out_file_is_unchanged<P: CommentPolicy>(
    t: Seq<SyntaxNode>,
    source: Seq<u8>,
    kinds: LanguageKinds,
    policy: P,
)
    requires
        policy.bail_spec(t, source),
    ensures
        emitted(tree_layout(t, source, kinds, policy)) == source,
{
    let l = tree_layout(t, source, kinds, policy);
    assert(layout_ok(l));
    assert forall|k: int| 0 <= k < l.source.len() implies #[trigger] l.protected[k] by {}
    law_fully_protected_is_identity(l);
}

/// Emission from byte `p`, with the gap run `run` open, reaches a kept
/// comment at or after `p` and copies its bytes verbatim.
proof fn lemma_kept_run<P: CommentPolicy>(
    t: Seq<SyntaxNode>,
    source: Seq<u8>,
    kinds: LanguageKinds,
    policy: P,
    i: int,
    p: int,
    run: int,
) -> (w: (Seq<u8>, int))
    requires
        well_formed(t, source.len()),
        0 <= i < t.len(),
        kept_comment(t, i, source, kinds, policy),
        0 <= p <= t[i].start,
    ensures
        emit_from(tree_layout(t, source, kinds, policy), p, run) == w.0 + covered(t, i, source)
            + emit_from(tree_layout(t, source, kinds, policy), t[i].end as int, w.1),
{
    let l = tree_layout(t, source, kinds, policy);
    assert(layout_ok(l));
    let a = t[i].start as int;
    let b = t[i].end as int;
    let reach = lemma_emission_reaches(l, p, run, a);
    if a == b {
        assert(covered(t, i, source) =~= Seq::<u8>::empty());
        assert(emit_from(l, p, run) =~= reach.0 + covered(t, i, source) + emit_from(l, b, reach.1));
        reach
    } else {
        assert forall|k: int| a <= k < b implies #[trigger] l.protected[k] by {
            assert(covers(t, i, k));
            assert(protecting(t, i, source, kinds, policy));
        }
        lemma_protected_run(l, a, reach.1, b);
        let head = reach.0 + pending(l, reach.1, a);
        assert(emit_from(l, p, run) =~= head + covered(t, i, source) + emit_from(l, b, -1));
        (head, -1)
    }
}

/// A comment the policy keeps appears in the output byte for byte: the
/// output is some text, the comment's bytes, and some more text.
pub proof fn law_kept_comment_survives<P: CommentPolicy>(
    t: Seq<SyntaxNode>,
    source: Seq<u8>,
    kinds: LanguageKinds,
    policy: P,
    i: int,
) -> (w: (Seq<u8>, Seq<u8>))
    requires
        well_formed(t, source.len()),
        0 <= i < t.len(),
        kept_comment(t, i, source, kinds, policy),
    ensures
        emitted(tree_layout(t, source, kinds, policy)) == w.0 + covered(t, i, source) + w.1,
{
    let l = tree_layout(t, source, kinds, policy);
    let r = lemma_kept_run(t, source, kinds, policy, i, 0, -1);
    (r.0, emit_from(l, t[i].end as int, r.1))
}

/// Two kept comments appear in the output byte for byte and in source
/// order: one that ends before the other starts is emitted before it.
pub proof fn law_kept_comments_keep_their_order<P: CommentPolicy>(
    t: Seq<SyntaxNode>,
    source: Seq<u8>,
    kinds: LanguageKinds,
    policy: P,
    i: int,
    j: int,
) -> (w: (Seq<u8>, Seq<u8>, Seq<u8>))
    requires
        well_formed(t, source.len()),
        0 <= i < t.len(),
        0 <= j < t.len(),
        kept_comment(t, i, source, kinds, policy),
        kept_comment(t, j, source, kinds, policy),
        t[i].end <= t[j].start,
    ensures
        emitted(tree_layout(t, source, kinds, policy)) == w.0 + covered(t, i, source) + w.1
            + covered(t, j, source) + w.2,
{
    let l = tree_layout(t, source, kinds, policy);
    let first = lemma_kept_run(t, source, kinds, policy, i, 0, -1);
    let second = lemma_kept_run(t, source, kinds, policy, j, t[i].end as int, first.1);
    let rest = emit_from(l, t[j].end as int, second.1);
    assert(emitted(l) =~= first.0 + covered(t, i, source) + second.0 + covered(t, j, source) + rest);
    (first.0, second.0, rest)
}

} // verus!
