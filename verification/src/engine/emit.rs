//! The whitespace rewriter and comment stripper.
//!
//! A plan marks every byte of the source as protected (copied verbatim),
//! deleted (a dropped comment, blanked to a space) or neither, and marks the
//! positions whose preceding gap is pinned. Emission then rewrites the gaps
//! between protected bytes and nothing else: every maximal run of
//! unprotected ASCII whitespace becomes one `\n` when it held a newline (for
//! a newline-sensitive grammar) and one space otherwise, the run that starts
//! the file is dropped, and a pinned run keeps one space in front of what it
//! precedes so that it can never be moved to column 0.
use vstd::prelude::*;

verus! {

/// ASCII whitespace as `u8::is_ascii_whitespace` has it: space, tab, line
/// feed, form feed and carriage return.
pub open spec fn is_ascii_ws(b: u8) -> bool {
    b == 0x20 || b == 0x09 || b == 0x0a || b == 0x0c || b == 0x0d
}

/// Whether `b` is ASCII whitespace.
pub fn is_ws(b: u8) -> (r: bool)
    ensures
        r == is_ascii_ws(b),
{
    b == 0x20 || b == 0x09 || b == 0x0a || b == 0x0c || b == 0x0d
}

/// A source and its plan, as mathematical values.
pub struct Layout {
    pub source: Seq<u8>,
    pub protected: Seq<bool>,
    pub deleted: Seq<bool>,
    pub pinned: Seq<bool>,
    pub newline_sensitive: bool,
}

/// Every mark covers exactly the bytes of the source.
pub open spec fn layout_ok(l: Layout) -> bool {
    l.protected.len() == l.source.len() && l.deleted.len() == l.source.len() && l.pinned.len()
        == l.source.len()
}

/// The byte at `i` once deleted comments are blanked: a deleted byte that is
/// not also protected becomes a space.
pub open spec fn blanked_at(l: Layout, i: int) -> u8 {
    if l.deleted[i] && !l.protected[i] {
        0x20
    } else {
        l.source[i]
    }
}

/// The whole source with deleted comments blanked.
pub open spec fn blanked(l: Layout) -> Seq<u8> {
    Seq::new(l.source.len(), |i: int| blanked_at(l, i))
}

/// Whether byte `i` lies in a gap run: unprotected whitespace once blanked.
pub open spec fn in_gap(l: Layout, i: int) -> bool {
    !l.protected[i] && is_ascii_ws(blanked_at(l, i))
}

/// Whether the blanked bytes `a..b` hold a line feed.
pub open spec fn has_newline(l: Layout, a: int, b: int) -> bool {
    exists|k: int| a <= k < b && blanked_at(l, k) == 0x0a
}

/// What a gap run is rewritten to. A pinned run keeps a space in front of
/// what follows it (after its newline, when it held one and is not the
/// file's first run); otherwise the file's first run is dropped, a run that
/// held a newline becomes one newline under a newline-sensitive grammar, and
/// every other run becomes one space.
pub open spec fn gap_replacement(
    newline: bool,
    leading: bool,
    pinned: bool,
    newline_sensitive: bool,
) -> Seq<u8> {
    if pinned {
        if newline && !leading {
            seq![0x0au8, 0x20u8]
        } else {
            seq![0x20u8]
        }
    } else if leading {
        Seq::empty()
    } else if newline && newline_sensitive {
        seq![0x0au8]
    } else {
        seq![0x20u8]
    }
}

/// The replacement of the gap run `run..end`.
pub open spec fn run_replacement(l: Layout, run: int, end: int) -> Seq<u8> {
    gap_replacement(
        has_newline(l, run, end),
        run == 0,
        end < l.source.len() && l.pinned[end],
        l.newline_sensitive,
    )
}

/// The output for bytes `i..` of the layout, given that a gap run started at
/// `run` and is still open (`run < 0` when none is).
pub open spec fn emit_from(l: Layout, i: int, run: int) -> Seq<u8>
    decreases l.source.len() - i,
{
    if i >= l.source.len() {
        if run >= 0 {
            run_replacement(l, run, l.source.len() as int)
        } else {
            Seq::empty()
        }
    } else if in_gap(l, i) {
        emit_from(l, i + 1, if run >= 0 { run } else { i })
    } else {
        (if run >= 0 { run_replacement(l, run, i) } else { Seq::empty() }) + seq![blanked_at(l, i)]
            + emit_from(l, i + 1, -1)
    }
}

/// The emitted text of a layout.
pub open spec fn emitted(l: Layout) -> Seq<u8> {
    emit_from(l, 0, -1)
}

/// The marks a rewrite follows, one entry per source byte.
pub struct Plan {
    pub protected: Vec<bool>,
    pub deleted: Vec<bool>,
    pub pinned: Vec<bool>,
}

impl Plan {
    /// The layout of `source` under this plan.
    pub open spec fn layout(&self, source: Seq<u8>, newline_sensitive: bool) -> Layout {
        Layout {
            source,
            protected: self.protected@,
            deleted: self.deleted@,
            pinned: self.pinned@,
            newline_sensitive,
        }
    }
}

/// Appends the replacement of a gap run.
fn push_gap(out: &mut Vec<u8>, newline: bool, leading: bool, pinned: bool, newline_sensitive: bool)
    ensures
        final(out)@ == old(out)@ + gap_replacement(newline, leading, pinned, newline_sensitive),
{
    if pinned {
        if newline && !leading {
            out.push(0x0a);
        }
        out.push(0x20);
    } else if leading {
    } else if newline && newline_sensitive {
        out.push(0x0a);
    } else {
        out.push(0x20);
    }
    proof {
        let g = gap_replacement(newline, leading, pinned, newline_sensitive);
        assert(final(out)@ =~= old(out)@ + g);
    }
}

/// Rewrites `source` under `plan`: protected bytes are copied, deleted bytes
/// are blanked, and every gap run is replaced as [`gap_replacement`] says.
pub fn emit(source: &[u8], plan: &Plan, newline_sensitive: bool) -> (out: Vec<u8>)
    requires
        layout_ok(plan.layout(source@, newline_sensitive)),
    ensures
        out@ == emitted(plan.layout(source@, newline_sensitive)),
{
    let ghost l = plan.layout(source@, newline_sensitive);
    let n = source.len();
    let mut out: Vec<u8> = Vec::new();
    let mut in_run = false;
    let mut run: usize = 0;
    let mut newline = false;
    let mut i: usize = 0;
    while i < n
        invariant
            l == plan.layout(source@, newline_sensitive),
            layout_ok(l),
            n == source@.len(),
            i <= n,
            in_run ==> run < i,
            in_run ==> newline == has_newline(l, run as int, i as int),
            emitted(l) == out@ + emit_from(l, i as int, if in_run { run as int } else { -1 }),
        decreases n - i,
    {
        let protected = plan.protected[i];
        let b = if plan.deleted[i] && !protected {
            0x20u8
        } else {
            source[i]
        };
        assert(b == blanked_at(l, i as int));
        if !protected && is_ws(b) {
            if !in_run {
                in_run = true;
                run = i;
                newline = false;
            }
            if b == 0x0a {
                newline = true;
            }
            proof {
                if newline {
                    if b == 0x0a {
                        assert(blanked_at(l, i as int) == 0x0a);
                    }
                    assert(has_newline(l, run as int, i + 1));
                } else {
                    assert forall|k: int| run <= k < i + 1 implies blanked_at(l, k) != 0x0a by {
                        if k < i {
                            assert(!has_newline(l, run as int, i as int));
                        }
                    }
                }
            }
        } else {
            if in_run {
                push_gap(&mut out, newline, run == 0, plan.pinned[i], newline_sensitive);
                in_run = false;
            }
            out.push(b);
        }
        i = i + 1;
    }
    if in_run {
        push_gap(&mut out, newline, run == 0, false, newline_sensitive);
    }
    proof {
        assert(out@ =~= out@ + Seq::<u8>::empty());
    }
    out
}

/// The non-whitespace bytes of `s`, in order.
pub open spec fn visible(s: Seq<u8>) -> Seq<u8>
    decreases s.len(),
{
    if s.len() == 0 {
        s
    } else if is_ascii_ws(s[0]) {
        visible(s.skip(1))
    } else {
        seq![s[0]] + visible(s.skip(1))
    }
}

/// Taking the visible bytes distributes over concatenation.
pub proof fn lemma_visible_concat(a: Seq<u8>, b: Seq<u8>)
    ensures
        visible(a + b) == visible(a) + visible(b),
    decreases a.len(),
{
    if a.len() == 0 {
        assert(a + b =~= b);
        assert(visible(a) =~= Seq::<u8>::empty());
        assert(visible(a) + visible(b) =~= visible(b));
    } else {
        assert((a + b).skip(1) =~= a.skip(1) + b);
        lemma_visible_concat(a.skip(1), b);
        assert((a + b)[0] == a[0]);
        if !is_ascii_ws(a[0]) {
            assert(seq![a[0]] + (visible(a.skip(1)) + visible(b)) =~= (seq![a[0]] + visible(
                a.skip(1),
            )) + visible(b));
        }
    }
}

/// A gap replacement is whitespace only.
pub proof fn lemma_replacement_invisible(
    newline: bool,
    leading: bool,
    pinned: bool,
    newline_sensitive: bool,
)
    ensures
        visible(gap_replacement(newline, leading, pinned, newline_sensitive)) == Seq::<u8>::empty(),
{
    let g = gap_replacement(newline, leading, pinned, newline_sensitive);
    let e = Seq::<u8>::empty();
    assert(visible(e) == e);
    if g.len() == 2 {
        let g1 = g.skip(1);
        assert(g1 =~= seq![0x20u8]);
        assert(g1.skip(1) =~= e);
        assert(visible(g1) == visible(g1.skip(1)));
        assert(visible(g) == visible(g1));
    } else if g.len() == 1 {
        assert(g.skip(1) =~= e);
        assert(visible(g) == visible(g.skip(1)));
    } else {
        assert(g =~= e);
    }
}

/// The visible bytes of a single byte.
proof fn lemma_visible_one(b: u8)
    ensures
        visible(seq![b]) == (if is_ascii_ws(b) { Seq::<u8>::empty() } else { seq![b] }),
{
    let s = seq![b];
    let e = Seq::<u8>::empty();
    assert(s.skip(1) =~= e);
    assert(visible(e) == e);
    assert(s[0] == b);
    if !is_ascii_ws(b) {
        assert(visible(s) == seq![b] + visible(s.skip(1)));
        assert(seq![b] + e =~= seq![b]);
    }
}

proof fn lemma_emit_from_visible(l: Layout, i: int, run: int)
    requires
        layout_ok(l),
        0 <= i <= l.source.len(),
    ensures
        visible(emit_from(l, i, run)) == visible(blanked(l).skip(i)),
    decreases l.source.len() - i,
{
    let bl = blanked(l);
    let n = l.source.len() as int;
    if i >= n {
        assert(bl.skip(i) =~= Seq::<u8>::empty());
        if run >= 0 {
            lemma_replacement_invisible(
                has_newline(l, run, n),
                run == 0,
                false,
                l.newline_sensitive,
            );
        }
    } else {
        assert(bl.skip(i).skip(1) =~= bl.skip(i + 1));
        assert(bl.skip(i)[0] == blanked_at(l, i));
        if in_gap(l, i) {
            lemma_emit_from_visible(l, i + 1, if run >= 0 { run } else { i });
        } else {
            lemma_emit_from_visible(l, i + 1, -1);
            let head: Seq<u8> = if run >= 0 { run_replacement(l, run, i) } else { Seq::empty() };
            if run >= 0 {
                lemma_replacement_invisible(
                    has_newline(l, run, i),
                    run == 0,
                    l.pinned[i],
                    l.newline_sensitive,
                );
            }
            lemma_visible_concat(head + seq![blanked_at(l, i)], emit_from(l, i + 1, -1));
            lemma_visible_concat(head, seq![blanked_at(l, i)]);
            lemma_visible_one(blanked_at(l, i));
            if !is_ascii_ws(blanked_at(l, i)) {
                assert(seq![blanked_at(l, i)] + visible(bl.skip(i + 1)) =~= visible(bl.skip(i)));
            }
            assert(visible(head) =~= Seq::<u8>::empty());
            assert(visible(head) + visible(seq![blanked_at(l, i)]) =~= visible(seq![blanked_at(l, i)]));
        }
    }
}

/// Emission changes whitespace and nothing else: the output's non-whitespace
/// bytes are exactly those of the source with its deleted comments blanked.
pub proof fn law_only_whitespace_changes(l: Layout)
    requires
        layout_ok(l),
    ensures
        visible(emitted(l)) == visible(blanked(l)),
{
    lemma_emit_from_visible(l, 0, -1);
    assert(blanked(l).skip(0) =~= blanked(l));
}

proof fn lemma_all_protected_from(l: Layout, i: int)
    requires
        layout_ok(l),
        0 <= i <= l.source.len(),
        forall|k: int| 0 <= k < l.source.len() ==> #[trigger] l.protected[k],
    ensures
        emit_from(l, i, -1) == l.source.skip(i),
    decreases l.source.len() - i,
{
    if i < l.source.len() {
        lemma_all_protected_from(l, i + 1);
        assert(l.source.skip(i) =~= seq![l.source[i]] + l.source.skip(i + 1));
        assert(Seq::<u8>::empty() + seq![blanked_at(l, i)] =~= seq![l.source[i]]);
    } else {
        assert(l.source.skip(i) =~= Seq::<u8>::empty());
    }
}

/// A plan that protects every byte reproduces the source byte for byte,
/// whatever it deletes or pins and whatever the grammar's newline setting.
pub proof fn law_fully_protected_is_identity(l: Layout)
    requires
        layout_ok(l),
        forall|k: int| 0 <= k < l.source.len() ==> #[trigger] l.protected[k],
    ensures
        emitted(l) == l.source,
{
    lemma_all_protected_from(l, 0);
    assert(l.source.skip(0) =~= l.source);
}

/// What an open gap run contributes before a byte that ends it.
pub open spec fn pending(l: Layout, run: int, i: int) -> Seq<u8> {
    if run >= 0 {
        run_replacement(l, run, i)
    } else {
        Seq::empty()
    }
}

/// A run of protected bytes `i..b` is emitted verbatim, after whatever the
/// open gap run before it becomes.
pub proof fn lemma_protected_run(l: Layout, i: int, run: int, b: int)
    requires
        layout_ok(l),
        0 <= i < b <= l.source.len(),
        forall|k: int| i <= k < b ==> #[trigger] l.protected[k],
    ensures
        emit_from(l, i, run) == pending(l, run, i) + l.source.subrange(i, b) + emit_from(l, b, -1),
    decreases b - i,
{
    assert(!in_gap(l, i));
    assert(blanked_at(l, i) == l.source[i]);
    if i + 1 < b {
        lemma_protected_run(l, i + 1, -1, b);
        assert(pending(l, -1, i + 1) =~= Seq::<u8>::empty());
        assert(l.source.subrange(i, b) =~= seq![l.source[i]] + l.source.subrange(i + 1, b));
        assert(emit_from(l, i, run) =~= pending(l, run, i) + l.source.subrange(i, b) + emit_from(
            l,
            b,
            -1,
        ));
    } else {
        assert(l.source.subrange(i, b) =~= seq![l.source[i]]);
    }
}

/// Emission from byte `i` reaches any later byte `a`: what it emits is some
/// text `w.0` followed by the emission from `a` with the gap run `w.1` open.
pub proof fn lemma_emission_reaches(l: Layout, i: int, run: int, a: int) -> (w: (Seq<u8>, int))
    requires
        layout_ok(l),
        0 <= i <= a <= l.source.len(),
    ensures
        emit_from(l, i, run) == w.0 + emit_from(l, a, w.1),
    decreases a - i,
{
    if i == a {
        assert(emit_from(l, i, run) =~= Seq::<u8>::empty() + emit_from(l, a, run));
        (Seq::empty(), run)
    } else {
        let next_run = if in_gap(l, i) {
            if run >= 0 {
                run
            } else {
                i
            }
        } else {
            -1
        };
        let step: Seq<u8> = if in_gap(l, i) {
            Seq::empty()
        } else {
            pending(l, run, i) + seq![blanked_at(l, i)]
        };
        assert(emit_from(l, i, run) =~= step + emit_from(l, i + 1, next_run));
        let w = lemma_emission_reaches(l, i + 1, next_run, a);
        assert(emit_from(l, i, run) =~= (step + w.0) + emit_from(l, a, w.1));
        (step + w.0, w.1)
    }
}

} // verus!
