//! Transform passes on the token stream, run before rendering: merging
//! adjacent imports (on by default), and stripping docstrings or type
//! annotations (opt-in, since both change what the program can introspect).
//! Each pass reports whether it changed the stream; a changed stream is what
//! the rendering is then checked against.
use vstd::prelude::*;
use crate::python::emit::{PyKind, PyTok, TokView, views_of};
use crate::text::chars_eq;

verus! {

/// A copy of a token.
pub fn copy_tok(t: &PyTok) -> (r: PyTok)
    ensures
        r@ == t@,
{
    PyTok { kind: t.kind, text: t.text.clone(), start: t.start, end: t.end }
}

/// Where the statement that starts at `k` ends: the index of its logical
/// newline, or `None` when a parenthesis, a star, a semicolon, a comment or
/// the end of the file comes first (such an import never merges).
pub open spec fn stmt_end(toks: Seq<TokView>, k: int) -> Option<int>
    decreases toks.len() - k,
{
    if k < 0 || k >= toks.len() {
        None
    } else {
        let kd = toks[k].kind;
        if kd is Newline {
            Some(k)
        } else if kd is Lpar || kd is Star || kd is Semi || kd is Comment || kd is EndOfFile {
            None
        } else {
            stmt_end(toks, k + 1)
        }
    }
}

/// The last `import` keyword strictly between `start` and `k`.
pub open spec fn last_import(toks: Seq<TokView>, start: int, k: int) -> Option<int>
    decreases k - start,
{
    if k <= start + 1 {
        None
    } else if toks[k - 1].kind is Import {
        Some(k - 1)
    } else {
        last_import(toks, start, k - 1)
    }
}

/// The texts of the tokens `a..b` but the non-logical newlines, run
/// together: the module a `from` import names.
pub open spec fn module_text(toks: Seq<TokView>, a: int, b: int) -> Seq<char>
    decreases b - a,
{
    if b <= a {
        Seq::empty()
    } else {
        module_text(toks, a, b - 1) + (if toks[b - 1].kind is NonLogicalNewline {
            Seq::empty()
        } else {
            toks[b - 1].text
        })
    }
}

/// An import statement that can merge: its flavor (`None` for `import`,
/// the module for `from <module> import`), how many leading tokens form its
/// `import` / `from <module> import` prefix, and the index of its newline.
pub open spec fn statement(toks: Seq<TokView>, i: int) -> Option<(Option<Seq<char>>, int, int)> {
    match stmt_end(toks, i) {
        None => None,
        Some(e) => if toks[i].kind is Import {
            Some((None, 1, e))
        } else {
            match last_import(toks, i, e) {
                None => None,
                Some(kw) => Some((Some(module_text(toks, i + 1, kw)), kw - i + 1, e)),
            }
        },
    }
}

/// The comma that continues a merged import, at the position of the
/// keyword it replaces.
pub open spec fn comma_at(t: TokView) -> TokView {
    TokView { kind: PyKind::Comma, text: ","@, start: t.start, end: t.end }
}

/// Whether an import starts at `i`: an `import` or `from` keyword at the
/// start of a line.
pub open spec fn import_here(toks: Seq<TokView>, i: int, at_line_start: bool) -> Option<
    (Option<Seq<char>>, int, int),
> {
    if at_line_start && (toks[i].kind is Import || toks[i].kind is From) {
        statement(toks, i)
    } else {
        None
    }
}

/// The merged stream from token `i` on, and whether anything merged, given
/// the previous import's withheld newline (and its flavor) and whether `i`
/// starts a line. A blank line is passed through and keeps the import open;
/// an import of the same flavor as the open one continues it after a comma
/// in place of its prefix; anything else closes it first.
pub open spec fn merge_rest(
    toks: Seq<TokView>,
    i: int,
    pending: Option<(Option<Seq<char>>, int)>,
    at_line_start: bool,
) -> (Seq<TokView>, bool)
    decreases toks.len() - i,
{
    if i < 0 || i >= toks.len() {
        (
            match pending {
                Some((_, nl)) => seq![toks[nl]],
                None => Seq::empty(),
            },
            false,
        )
    } else {
        let t = toks[i];
        if t.kind is NonLogicalNewline {
            let r = merge_rest(toks, i + 1, pending, true);
            (seq![t] + r.0, r.1)
        } else {
            match import_here(toks, i, at_line_start) {
                Some((flavor, prefix, end)) => if i < end < toks.len() {
                    let same = pending matches Some((f, _)) && f == flavor;
                    let head = if same {
                        seq![comma_at(t)]
                    } else {
                        match pending {
                            Some((_, nl)) => seq![toks[nl]] + toks.subrange(i, i + prefix),
                            None => toks.subrange(i, i + prefix),
                        }
                    };
                    let r = merge_rest(toks, end + 1, Some((flavor, end)), true);
                    (head + toks.subrange(i + prefix, end) + r.0, same || r.1)
                } else {
                    (Seq::empty(), false)
                },
                None => {
                    let head = match pending {
                        Some((_, nl)) => seq![toks[nl]],
                        None => Seq::empty(),
                    };
                    let r = merge_rest(
                        toks,
                        i + 1,
                        None,
                        t.kind is Newline || t.kind is Indent || t.kind is Dedent,
                    );
                    (head + seq![t] + r.0, r.1)
                },
            }
        }
    }
}

/// The stream with adjacent imports merged, and whether any were.
pub open spec fn merged(toks: Seq<TokView>) -> (Seq<TokView>, bool) {
    merge_rest(toks, 0, None, true)
}

proof fn lemma_stmt_end(toks: Seq<TokView>, k: int)
    requires
        0 <= k,
    ensures
        stmt_end(toks, k) matches Some(e) ==> k <= e < toks.len() && toks[e].kind is Newline,
    decreases toks.len() - k,
{
    if 0 <= k < toks.len() {
        lemma_stmt_end(toks, k + 1);
    }
}

proof fn lemma_last_import(toks: Seq<TokView>, start: int, k: int)
    ensures
        last_import(toks, start, k) matches Some(j) ==> start < j < k && toks[j].kind is Import,
    decreases k - start,
{
    if k > start + 1 {
        lemma_last_import(toks, start, k - 1);
    }
}

/// A statement found at an `import` or `from` keyword lies inside the
/// stream, and its prefix ends before its newline.
proof fn lemma_statement(toks: Seq<TokView>, i: int)
    requires
        0 <= i < toks.len(),
        toks[i].kind is Import || toks[i].kind is From,
    ensures
        statement(toks, i) matches Some((f, p, e)) ==> 1 <= p && i + p <= e && e < toks.len()
            && toks[e].kind is Newline,
{
    lemma_stmt_end(toks, i);
    if let Some(e) = stmt_end(toks, i) {
        lemma_last_import(toks, i, e);
        if e == i {
            assert(toks[i].kind is Newline);
        }
    }
}

/// An optional position as an integer.
pub open spec fn opt_int(o: Option<usize>) -> Option<int> {
    match o {
        Some(k) => Some(k as int),
        None => None,
    }
}

/// An optional module as characters.
pub open spec fn opt_chars(o: Option<Vec<char>>) -> Option<Seq<char>> {
    match o {
        Some(v) => Some(v@),
        None => None,
    }
}

/// Scans the statement at `start` for its newline and its last `import`
/// keyword.
fn scan_end(tokens: &[PyTok], start: usize) -> (r: (Option<usize>, Option<usize>))
    requires
        start < tokens@.len(),
    ensures
        match r.0 {
            Some(e) => stmt_end(views_of(tokens@), start as int) == Some(e as int) && opt_int(r.1)
                == last_import(views_of(tokens@), start as int, e as int),
            None => stmt_end(views_of(tokens@), start as int) is None,
        },
{
    let ghost toks = views_of(tokens@);
    let mut kw: Option<usize> = None;
    let mut k = start;
    while k < tokens.len()
        invariant
            toks == views_of(tokens@),
            start <= k <= toks.len(),
            stmt_end(toks, start as int) == stmt_end(toks, k as int),
            opt_int(kw) == last_import(toks, start as int, k as int),
        decreases toks.len() - k,
    {
        assert(toks[k as int] == tokens@[k as int]@);
        match tokens[k].kind {
            PyKind::Newline => {
                return (Some(k), kw);
            },
            PyKind::Lpar | PyKind::Star | PyKind::Semi | PyKind::Comment | PyKind::EndOfFile => {
                return (None, None);
            },
            PyKind::Import => {
                if k > start {
                    kw = Some(k);
                }
            },
            _ => {},
        }
        k = k + 1;
    }
    (None, None)
}

/// The module text of the tokens `a..b`.
fn module_chars(tokens: &[PyTok], a: usize, b: usize) -> (r: Vec<char>)
    requires
        a <= b <= tokens@.len(),
    ensures
        r@ == module_text(views_of(tokens@), a as int, b as int),
{
    let ghost toks = views_of(tokens@);
    let mut r: Vec<char> = Vec::new();
    let mut k = a;
    assert(module_text(toks, a as int, a as int) =~= Seq::<char>::empty());
    while k < b
        invariant
            toks == views_of(tokens@),
            a <= k <= b <= toks.len(),
            r@ == module_text(toks, a as int, k as int),
        decreases b - k,
    {
        assert(toks[k as int] == tokens@[k as int]@);
        if tokens[k].kind != PyKind::NonLogicalNewline {
            let cs = crate::text::chars_of(tokens[k].text.as_str());
            let mut j: usize = 0;
            let ghost before = r@;
            while j < cs.len()
                invariant
                    j <= cs@.len(),
                    r@ == before + cs@.take(j as int),
                decreases cs@.len() - j,
            {
                r.push(cs[j]);
                j = j + 1;
                assert(r@ =~= before + cs@.take(j as int));
            }
            assert(cs@.take(cs@.len() as int) =~= cs@);
        } else {
            assert(r@ =~= r@ + Seq::<char>::empty());
        }
        k = k + 1;
    }
    r
}

/// The merge-relevant facts of the statement at `start`.
fn scan(tokens: &[PyTok], start: usize) -> (r: Option<(Option<Vec<char>>, usize, usize)>)
    requires
        start < tokens@.len(),
        tokens@[start as int].kind is Import || tokens@[start as int].kind is From,
    ensures
        match statement(views_of(tokens@), start as int) {
            None => r is None,
            Some((f, p, e)) => r matches Some((g, q, x)) && q == p && x == e && match g {
                Some(m) => f == Some(m@),
                None => f is None,
            },
        },
{
    let ghost toks = views_of(tokens@);
    proof {
        lemma_statement(toks, start as int);
        assert(toks[start as int] == tokens@[start as int]@);
    }
    let (end, kw) = scan_end(tokens, start);
    match end {
        None => None,
        Some(e) => {
            if tokens[start].kind == PyKind::Import {
                Some((None, 1, e))
            } else {
                match kw {
                    None => None,
                    Some(k) => {
                        proof {
                            lemma_last_import(toks, start as int, e as int);
                        }
                        let m = module_chars(tokens, start + 1, k);
                        Some((Some(m), k - start + 1, e))
                    },
                }
            }
        },
    }
}

/// Whether two flavors are the same: both `import`, or `from` the same
/// module.
fn same_flavor(a: &Option<Vec<char>>, b: &Option<Vec<char>>) -> (r: bool)
    ensures
        r == (opt_chars(*a) == opt_chars(*b)),
{
    match (a, b) {
        (None, None) => true,
        (Some(x), Some(y)) => chars_eq(x.as_slice(), y.as_slice()),
        _ => false,
    }
}

/// Appends copies of `tokens[a..b]`.
fn extend_with(out: &mut Vec<PyTok>, tokens: &[PyTok], a: usize, b: usize)
    requires
        a <= b <= tokens@.len(),
    ensures
        views_of(final(out)@) == views_of(old(out)@) + views_of(tokens@).subrange(a as int, b as int),
{
    let mut k = a;
    while k < b
        invariant
            a <= k <= b <= tokens@.len(),
            views_of(out@) == views_of(old(out)@) + views_of(tokens@).subrange(a as int, k as int),
        decreases b - k,
    {
        let ghost before = views_of(out@);
        out.push(copy_tok(&tokens[k]));
        assert(views_of(out@) =~= before.push(tokens@[k as int]@));
        k = k + 1;
        assert(views_of(out@) =~= views_of(old(out)@) + views_of(tokens@).subrange(
            a as int,
            k as int,
        ));
    }
}

/// The pending state as a mathematical value.
pub open spec fn pending_view(p: Option<(Option<Vec<char>>, usize)>) -> Option<
    (Option<Seq<char>>, int),
> {
    match p {
        Some((f, nl)) => Some((opt_chars(f), nl as int)),
        None => None,
    }
}

/// Merges adjacent import statements. Statements merge only when nothing
/// but blank lines separates them, both are the same flavor (`import`, or
/// `from` the same module), and neither uses parentheses, `*`, `;` or a
/// comment; the continuation drops its newline and prefix for a comma.
#[verifier::rlimit(60)]
pub fn merge_imports(tokens: &[PyTok]) -> (r: (Vec<PyTok>, bool))
    ensures
        (views_of(r.0@), r.1) == merged(views_of(tokens@)),
{
    let ghost toks = views_of(tokens@);
    let mut out: Vec<PyTok> = Vec::new();
    let mut modified = false;
    let mut pending: Option<(Option<Vec<char>>, usize)> = None;
    let mut at_line_start = true;
    let mut i: usize = 0;
    while i < tokens.len()
        invariant
            toks == views_of(tokens@),
            i <= toks.len(),
            pending matches Some((_, nl)) ==> nl < toks.len(),
            views_of(out@) + merge_rest(toks, i as int, pending_view(pending), at_line_start).0
                == merged(toks).0,
            (modified || merge_rest(toks, i as int, pending_view(pending), at_line_start).1)
                == merged(toks).1,
        decreases toks.len() - i,
    {
        let ghost rest = merge_rest(toks, i as int, pending_view(pending), at_line_start);
        let ghost before = views_of(out@);
        let t = &tokens[i];
        assert(toks[i as int] == t@);
        if t.kind == PyKind::NonLogicalNewline {
            out.push(copy_tok(t));
            at_line_start = true;
            i = i + 1;
            assert(views_of(out@) =~= before.push(t@));
            assert(before + rest.0 =~= views_of(out@) + merge_rest(
                toks,
                i as int,
                pending_view(pending),
                at_line_start,
            ).0);
        } else {
            let import = if at_line_start && (t.kind == PyKind::Import || t.kind == PyKind::From) {
                scan(tokens, i)
            } else {
                None
            };
            proof {
                if at_line_start && (t.kind is Import || t.kind is From) {
                    lemma_statement(toks, i as int);
                }
            }
            match import {
                Some((flavor, prefix, end)) => {
                    let ghost fv = opt_chars(flavor);
                    let same = match &pending {
                        Some((f, _)) => same_flavor(f, &flavor),
                        None => false,
                    };
                    if same {
                        modified = true;
                        out.push(
                            PyTok {
                                kind: PyKind::Comma,
                                text: String::from_str(","),
                                start: t.start,
                                end: t.end,
                            },
                        );
                    } else {
                        match &pending {
                            Some((_, nl)) => {
                                out.push(copy_tok(&tokens[*nl]));
                            },
                            None => {},
                        }
                        extend_with(&mut out, tokens, i, i + prefix);
                    }
                    extend_with(&mut out, tokens, i + prefix, end);
                    pending = Some((flavor, end));
                    at_line_start = true;
                    i = end + 1;
                    proof {
                        let r = merge_rest(toks, i as int, pending_view(pending), true);
                        assert(pending_view(pending) == Some((fv, end as int)));
                        assert(views_of(out@) + r.0 =~= before + rest.0);
                    }
                },
                None => {
                    match &pending {
                        Some((_, nl)) => {
                            out.push(copy_tok(&tokens[*nl]));
                        },
                        None => {},
                    }
                    at_line_start = match t.kind {
                        PyKind::Newline | PyKind::Indent | PyKind::Dedent => true,
                        _ => false,
                    };
                    out.push(copy_tok(t));
                    pending = None;
                    i = i + 1;
                    proof {
                        let r = merge_rest(toks, i as int, None, at_line_start);
                        assert(views_of(out@) + r.0 =~= before + rest.0);
                    }
                },
            }
        }
    }
    let ghost before = views_of(out@);
    match &pending {
        Some((_, nl)) => {
            out.push(copy_tok(&tokens[*nl]));
        },
        None => {},
    }
    assert(views_of(out@) =~= before + merge_rest(
        toks,
        i as int,
        pending_view(pending),
        at_line_start,
    ).0);
    (out, modified)
}

/// A byte range of the source, as the parser reports statement and
/// annotation extents.
#[derive(Clone, Copy, Debug, PartialEq, Eq, Structural)]
pub struct Span {
    pub start: usize,
    pub end: usize,
}

/// Whether token `t` lies within `s`.
pub open spec fn inside(t: TokView, s: Span) -> bool {
    t.start >= s.start && t.end <= s.end
}

/// The first of `spans[k..]` that holds `t`.
pub open spec fn first_containing(t: TokView, spans: Seq<Span>, k: int) -> Option<Span>
    decreases spans.len() - k,
{
    if k < 0 || k >= spans.len() {
        None
    } else if inside(t, spans[k]) {
        Some(spans[k])
    } else {
        first_containing(t, spans, k + 1)
    }
}

/// The `pass` that stands in for a removed statement, at the position of
/// its first token.
pub open spec fn pass_at(t: TokView) -> TokView {
    TokView { kind: PyKind::Pass, text: "pass"@, start: t.start, end: t.end }
}

/// The stream from token `i` on with every token of a `replaced` statement
/// collapsed into one `pass`, and every token marked in `dropped` left out.
/// `last` is the statement most recently replaced.
pub open spec fn replace_from(
    toks: Seq<TokView>,
    replaced: Seq<Span>,
    dropped: Seq<bool>,
    i: int,
    last: Option<Span>,
) -> Seq<TokView>
    decreases toks.len() - i,
{
    if i < 0 || i >= toks.len() {
        Seq::empty()
    } else {
        match first_containing(toks[i], replaced, 0) {
            Some(sp) => (if last != Some(sp) {
                seq![pass_at(toks[i])]
            } else {
                Seq::empty()
            }) + replace_from(toks, replaced, dropped, i + 1, Some(sp)),
            None => (if dropped[i] {
                Seq::empty()
            } else {
                seq![toks[i]]
            }) + replace_from(toks, replaced, dropped, i + 1, last),
        }
    }
}

/// Where the comment-or-blank run starting at `k` ends.
pub open spec fn run_end(toks: Seq<TokView>, k: int) -> int
    decreases toks.len() - k,
{
    if 0 <= k < toks.len() && (toks[k].kind is Comment || toks[k].kind is NonLogicalNewline) {
        run_end(toks, k + 1)
    } else {
        k
    }
}

/// Whether the tokens `a..b` hold a comment.
pub open spec fn holds_comment(toks: Seq<TokView>, a: int, b: int) -> bool {
    exists|j: int| a <= j < b && (#[trigger] toks[j]).kind is Comment
}

/// The stream from `i` on with each `Indent` moved behind the comment lines
/// that open its block, as a lexer places it.
pub open spec fn settled_from(toks: Seq<TokView>, i: int) -> Seq<TokView>
    decreases toks.len() - i,
{
    if i < 0 || i >= toks.len() {
        Seq::empty()
    } else if toks[i].kind is Indent {
        let e = run_end(toks, i + 1);
        if i < e <= toks.len() {
            (if holds_comment(toks, i + 1, e) {
                toks.subrange(i + 1, e).push(toks[i])
            } else {
                toks.subrange(i, e)
            }) + settled_from(toks, e)
        } else {
            Seq::empty()
        }
    } else {
        seq![toks[i]] + settled_from(toks, i + 1)
    }
}

proof fn lemma_run_end(toks: Seq<TokView>, k: int)
    requires
        0 <= k <= toks.len(),
    ensures
        k <= run_end(toks, k) <= toks.len(),
        forall|j: int|
            k <= j < run_end(toks, k) ==> (#[trigger] toks[j]).kind is Comment || toks[j].kind is NonLogicalNewline,
    decreases toks.len() - k,
{
    if k < toks.len() && (toks[k].kind is Comment || toks[k].kind is NonLogicalNewline) {
        lemma_run_end(toks, k + 1);
    }
}

/// Moves each `Indent` behind the comment-only lines that now open its
/// block. A lexer emits `Indent` at the block's first logical line, so once
/// a pass removed the statement in front of such comments, the `Indent` has
/// to move where a lexer of the output will put it.
pub fn settle_indents(tokens: &[PyTok]) -> (r: Vec<PyTok>)
    ensures
        views_of(r@) == settled_from(views_of(tokens@), 0),
{
    let ghost toks = views_of(tokens@);
    let mut out: Vec<PyTok> = Vec::new();
    let mut i: usize = 0;
    while i < tokens.len()
        invariant
            toks == views_of(tokens@),
            i <= toks.len(),
            views_of(out@) + settled_from(toks, i as int) == settled_from(toks, 0),
        decreases toks.len() - i,
    {
        let ghost before = views_of(out@);
        assert(toks[i as int] == tokens@[i as int]@);
        if tokens[i].kind == PyKind::Indent {
            let ghost i0 = i as int;
            let mut end = i + 1;
            let mut comments = false;
            proof {
                lemma_run_end(toks, i + 1);
            }
            while end < tokens.len() && (tokens[end].kind == PyKind::Comment || tokens[end].kind
                == PyKind::NonLogicalNewline)
                invariant
                    toks == views_of(tokens@),
                    i < end <= toks.len(),
                    run_end(toks, end as int) == run_end(toks, i + 1),
                    comments == holds_comment(toks, i + 1, end as int),
                decreases toks.len() - end,
            {
                assert(toks[end as int] == tokens@[end as int]@);
                if tokens[end].kind == PyKind::Comment {
                    comments = true;
                }
                end = end + 1;
                assert(comments == holds_comment(toks, i + 1, end as int)) by {
                    if comments {
                        if toks[end - 1].kind is Comment {
                            assert(holds_comment(toks, i + 1, end as int));
                        } else {
                            let j = choose|j: int| i + 1 <= j < end - 1 && (#[trigger] toks[j]).kind is Comment;
                            assert(holds_comment(toks, i + 1, end as int));
                        }
                    } else {
                        if holds_comment(toks, i + 1, end as int) {
                            let j = choose|j: int| i + 1 <= j < end && (#[trigger] toks[j]).kind is Comment;
                            assert(j != end - 1);
                            assert(holds_comment(toks, i + 1, end - 1));
                        }
                    }
                }
            }
            if end < tokens.len() {
                assert(toks[end as int] == tokens@[end as int]@);
            }
            assert(run_end(toks, end as int) == end);
            if comments {
                extend_with(&mut out, tokens, i + 1, end);
                let ghost mid = views_of(out@);
                out.push(copy_tok(&tokens[i]));
                assert(views_of(out@) =~= mid.push(toks[i as int]));
            } else {
                extend_with(&mut out, tokens, i, end);
            }
            i = end;
            proof {
                assert(run_end(toks, i0 + 1) == end as int);
                assert(toks[i0].kind is Indent);
                let piece = if holds_comment(toks, i0 + 1, end as int) {
                    toks.subrange(i0 + 1, end as int).push(toks[i0])
                } else {
                    toks.subrange(i0, end as int)
                };
                assert(settled_from(toks, i0) == piece + settled_from(toks, end as int));
                assert(views_of(out@) =~= before + piece);
                assert(views_of(out@) + settled_from(toks, i as int) =~= before + settled_from(
                    toks,
                    i0,
                ));
            }
        } else {
            out.push(copy_tok(&tokens[i]));
            i = i + 1;
            assert(views_of(out@) + settled_from(toks, i as int) =~= before + settled_from(
                toks,
                i - 1,
            ));
        }
    }
    assert(settled_from(toks, i as int) =~= Seq::<TokView>::empty());
    assert(views_of(out@) =~= views_of(out@) + Seq::<TokView>::empty());
    out
}

/// The first of `spans` that holds `t`.
fn containing(t: &PyTok, spans: &[Span]) -> (r: Option<Span>)
    ensures
        r == first_containing(t@, spans@, 0),
{
    let mut k: usize = 0;
    while k < spans.len()
        invariant
            k <= spans@.len(),
            first_containing(t@, spans@, 0) == first_containing(t@, spans@, k as int),
        decreases spans@.len() - k,
    {
        if t.start >= spans[k].start && t.end <= spans[k].end {
            return Some(spans[k]);
        }
        k = k + 1;
    }
    None
}

/// Collapses each `replaced` statement into one `pass` and leaves out the
/// tokens marked in `dropped`.
fn replace_tokens(tokens: &[PyTok], replaced: &[Span], dropped: &Vec<bool>) -> (r: Vec<PyTok>)
    requires
        dropped@.len() == tokens@.len(),
    ensures
        views_of(r@) == replace_from(views_of(tokens@), replaced@, dropped@, 0, None),
{
    let ghost toks = views_of(tokens@);
    let mut out: Vec<PyTok> = Vec::new();
    let mut last: Option<Span> = None;
    let mut i: usize = 0;
    while i < tokens.len()
        invariant
            toks == views_of(tokens@),
            dropped@.len() == toks.len(),
            i <= toks.len(),
            views_of(out@) + replace_from(toks, replaced@, dropped@, i as int, last)
                == replace_from(toks, replaced@, dropped@, 0, None),
        decreases toks.len() - i,
    {
        let ghost before = views_of(out@);
        let ghost l0 = last;
        let t = &tokens[i];
        assert(toks[i as int] == t@);
        match containing(t, replaced) {
            Some(sp) => {
                if last != Some(sp) {
                    out.push(
                        PyTok {
                            kind: PyKind::Pass,
                            text: String::from_str("pass"),
                            start: t.start,
                            end: t.end,
                        },
                    );
                    last = Some(sp);
                    assert(views_of(out@) =~= before.push(pass_at(toks[i as int])));
                } else {
                    assert(views_of(out@) =~= before + Seq::<TokView>::empty());
                }
            },
            None => {
                if !dropped[i] {
                    out.push(copy_tok(t));
                    assert(views_of(out@) =~= before.push(toks[i as int]));
                } else {
                    assert(views_of(out@) =~= before + Seq::<TokView>::empty());
                }
            },
        }
        i = i + 1;
        assert(views_of(out@) + replace_from(toks, replaced@, dropped@, i as int, last)
            =~= before + replace_from(toks, replaced@, dropped@, i - 1, l0));
    }
    assert(views_of(out@) =~= views_of(out@) + Seq::<TokView>::empty());
    out
}

/// The first logical newline or semicolon at or past the end of `s`,
/// searching from `j`: the separator that goes with a removed statement.
pub open spec fn first_separator(toks: Seq<TokView>, s: Span, j: int) -> Option<int>
    decreases toks.len() - j,
{
    if j < 0 || j >= toks.len() {
        None
    } else if toks[j].start >= s.end && (toks[j].kind is Newline || toks[j].kind is Semi) {
        Some(j)
    } else {
        first_separator(toks, s, j + 1)
    }
}

/// Where the cut that removes statement `s` ends: past its separator when
/// there is one.
pub open spec fn cut_end(toks: Seq<TokView>, s: Span) -> int {
    match first_separator(toks, s, 0) {
        Some(j) => toks[j].end as int,
        None => s.end as int,
    }
}

/// Whether removing statement `s` removes token `t`: it starts inside the
/// cut and is not a comment (a comment on the statement's line stays).
pub open spec fn cut_by(toks: Seq<TokView>, s: Span, t: TokView) -> bool {
    t.start >= s.start && t.start < cut_end(toks, s) && !(t.kind is Comment)
}

/// Which tokens the removed docstrings take with them.
pub open spec fn docstring_dropped(toks: Seq<TokView>, deletes: Seq<Span>) -> Seq<bool> {
    Seq::new(
        toks.len(),
        |i: int| exists|k: int| 0 <= k < deletes.len() && cut_by(toks, deletes[k], #[trigger] toks[i]),
    )
}

/// The stream with its docstrings stripped, and whether there were any: a
/// docstring in `deletes` goes with its separator, one in `replaced` (the
/// only statement of its body) becomes `pass`, and indents then move behind
/// the comment lines that now open their blocks.
pub open spec fn docstrings_stripped(toks: Seq<TokView>, deletes: Seq<Span>, replaced: Seq<Span>) -> (
    Seq<TokView>,
    bool,
) {
    if deletes.len() == 0 && replaced.len() == 0 {
        (toks, false)
    } else {
        (
            settled_from(replace_from(toks, replaced, docstring_dropped(toks, deletes), 0, None), 0),
            true,
        )
    }
}

/// Copies of every token.
pub fn copy_all(tokens: &[PyTok]) -> (r: Vec<PyTok>)
    ensures
        views_of(r@) == views_of(tokens@),
{
    let mut out: Vec<PyTok> = Vec::new();
    extend_with(&mut out, tokens, 0, tokens.len());
    assert(views_of(tokens@).subrange(0, tokens@.len() as int) =~= views_of(tokens@));
    assert(views_of(out@) =~= views_of(tokens@));
    out
}

/// The end of the cut that removes statement `s`.
fn cut_end_of(tokens: &[PyTok], s: Span) -> (r: usize)
    ensures
        r as int == cut_end(views_of(tokens@), s),
{
    let ghost toks = views_of(tokens@);
    let mut j: usize = 0;
    while j < tokens.len()
        invariant
            toks == views_of(tokens@),
            j <= toks.len(),
            first_separator(toks, s, 0) == first_separator(toks, s, j as int),
        decreases toks.len() - j,
    {
        assert(toks[j as int] == tokens@[j as int]@);
        let t = &tokens[j];
        if t.start >= s.end && (t.kind == PyKind::Newline || t.kind == PyKind::Semi) {
            return t.end;
        }
        j = j + 1;
    }
    s.end
}

/// Removes docstrings: `deletes` are docstrings of bodies that keep other
/// statements (or of the module), `replaced` the sole statements of class
/// and function bodies.
pub fn strip_docstrings(tokens: &[PyTok], deletes: &[Span], replaced: &[Span]) -> (r: (
    Vec<PyTok>,
    bool,
))
    ensures
        (views_of(r.0@), r.1) == docstrings_stripped(views_of(tokens@), deletes@, replaced@),
        replaced@.len() == 0 ==> views_of(r.0@).to_multiset() == views_of(tokens@).filter(
            |t: TokView| !docstring_cut(views_of(tokens@), deletes@, t),
        ).to_multiset(),
{
    let ghost toks = views_of(tokens@);
    proof {
        if replaced@.len() == 0 {
            assert(replaced@ =~= Seq::<Span>::empty());
            law_every_deleted_docstring_goes(toks, deletes@);
        }
    }
    if deletes.len() == 0 && replaced.len() == 0 {
        return (copy_all(tokens), false);
    }
    let mut cuts: Vec<usize> = Vec::new();
    let mut k: usize = 0;
    while k < deletes.len()
        invariant
            toks == views_of(tokens@),
            k <= deletes@.len(),
            cuts@.len() == k,
            forall|m: int| 0 <= m < k ==> cuts@[m] as int == cut_end(toks, deletes@[m]),
        decreases deletes@.len() - k,
    {
        cuts.push(cut_end_of(tokens, deletes[k]));
        k = k + 1;
    }
    let mut dropped: Vec<bool> = Vec::new();
    let mut i: usize = 0;
    while i < tokens.len()
        invariant
            toks == views_of(tokens@),
            cuts@.len() == deletes@.len(),
            forall|m: int| 0 <= m < deletes@.len() ==> cuts@[m] as int == cut_end(toks, deletes@[m]),
            i <= toks.len(),
            dropped@.len() == i,
            forall|j: int| 0 <= j < i ==> dropped@[j] == docstring_dropped(toks, deletes@)[j],
        decreases toks.len() - i,
    {
        let t = &tokens[i];
        assert(toks[i as int] == t@);
        let mut hit = false;
        let mut m: usize = 0;
        while m < deletes.len()
            invariant
                toks == views_of(tokens@),
                i < toks.len(),
                toks[i as int] == t@,
                cuts@.len() == deletes@.len(),
                forall|q: int| 0 <= q < deletes@.len() ==> cuts@[q] as int == cut_end(toks, deletes@[q]),
                m <= deletes@.len(),
                hit == exists|q: int| 0 <= q < m && cut_by(toks, deletes@[q], toks[i as int]),
            decreases deletes@.len() - m,
        {
            if t.start >= deletes[m].start && t.start < cuts[m] && t.kind != PyKind::Comment {
                hit = true;
            }
            proof {
                if hit && !(exists|q: int| 0 <= q < m && cut_by(toks, deletes@[q], toks[i as int])) {
                    assert(cut_by(toks, deletes@[m as int], toks[i as int]));
                }
            }
            m = m + 1;
        }
        dropped.push(hit);
        i = i + 1;
    }
    assert(dropped@ =~= docstring_dropped(toks, deletes@));
    let out = replace_tokens(tokens, replaced, &dropped);
    (settle_indents(out.as_slice()), true)
}

/// The first token at or past `j` that starts at or after `pos` and is not
/// a blank line.
pub open spec fn first_from(toks: Seq<TokView>, pos: usize, j: int) -> Option<int>
    decreases toks.len() - j,
{
    if j < 0 || j >= toks.len() {
        None
    } else if toks[j].start >= pos && !(toks[j].kind is NonLogicalNewline) {
        Some(j)
    } else {
        first_from(toks, pos, j + 1)
    }
}

/// A return annotation widened backwards over its `->`, when the token in
/// front of it is one.
pub open spec fn arrow_span(toks: Seq<TokView>, ret: Span) -> Option<Span> {
    match first_from(toks, ret.start, 0) {
        Some(f) => if f > 0 && toks[f - 1].kind is Rarrow {
            Some(Span { start: toks[f - 1].start, end: ret.end })
        } else {
            None
        },
        None => None,
    }
}

/// The deleted spans with every return annotation (and its arrow) added.
pub open spec fn with_arrows(toks: Seq<TokView>, deletes: Seq<Span>, return_annotations: Seq<Span>) -> Seq<
    Span,
>
    decreases return_annotations.len(),
{
    if return_annotations.len() == 0 {
        deletes
    } else {
        let e = with_arrows(toks, deletes, return_annotations.drop_last());
        match arrow_span(toks, return_annotations.last()) {
            Some(sp) => e.push(sp),
            None => e,
        }
    }
}

/// Which tokens fall inside a deleted span.
pub open spec fn annotation_dropped(toks: Seq<TokView>, deletes: Seq<Span>) -> Seq<bool> {
    Seq::new(
        toks.len(),
        |i: int| exists|k: int| 0 <= k < deletes.len() && inside(#[trigger] toks[i], deletes[k]),
    )
}

/// The stream with its annotations stripped, and whether there were any:
/// parameter and assignment annotations in `deletes` go with their `:`,
/// return annotations in `return_annotations` with their `->`, and a bare annotated
/// name in `replaced` becomes `pass`.
pub open spec fn annotations_stripped(
    toks: Seq<TokView>,
    deletes: Seq<Span>,
    return_annotations: Seq<Span>,
    replaced: Seq<Span>,
) -> (Seq<TokView>, bool) {
    let all = with_arrows(toks, deletes, return_annotations);
    if all.len() == 0 && replaced.len() == 0 {
        (toks, false)
    } else {
        (replace_from(toks, replaced, annotation_dropped(toks, all), 0, None), true)
    }
}

/// The arrow-widened span of a return annotation.
fn arrow_span_of(tokens: &[PyTok], ret: Span) -> (r: Option<Span>)
    requires
        first_from(views_of(tokens@), ret.start, 0) is Some,
    ensures
        r == arrow_span(views_of(tokens@), ret),
{
    let ghost toks = views_of(tokens@);
    let mut j: usize = 0;
    while j < tokens.len()
        invariant
            toks == views_of(tokens@),
            j <= toks.len(),
            first_from(toks, ret.start, 0) == first_from(toks, ret.start, j as int),
            first_from(toks, ret.start, 0) is Some,
        decreases toks.len() - j,
    {
        assert(toks[j as int] == tokens@[j as int]@);
        if tokens[j].start >= ret.start && tokens[j].kind != PyKind::NonLogicalNewline {
            if j > 0 && tokens[j - 1].kind == PyKind::Rarrow {
                assert(toks[j - 1] == tokens@[j - 1]@);
                return Some(Span { start: tokens[j - 1].start, end: ret.end });
            }
            if j > 0 {
                assert(toks[j - 1] == tokens@[j - 1]@);
            }
            return None;
        }
        j = j + 1;
    }
    None
}

/// Removes type annotations. Every return annotation must start at or
/// before some token of the stream, as one the parser found does.
pub fn strip_annotations(
    tokens: &[PyTok],
    deletes: &[Span],
    return_annotations: &[Span],
    replaced: &[Span],
) -> (r: (Vec<PyTok>, bool))
    requires
        forall|k: int|
            0 <= k < return_annotations@.len() ==> first_from(views_of(tokens@), #[trigger] return_annotations@[k].start, 0) is Some,
    ensures
        (views_of(r.0@), r.1) == annotations_stripped(
            views_of(tokens@),
            deletes@,
            return_annotations@,
            replaced@,
        ),
{
    let ghost toks = views_of(tokens@);
    let mut all: Vec<Span> = Vec::new();
    let mut k: usize = 0;
    while k < deletes.len()
        invariant
            k <= deletes@.len(),
            all@ == deletes@.take(k as int),
        decreases deletes@.len() - k,
    {
        all.push(deletes[k]);
        k = k + 1;
        assert(all@ =~= deletes@.take(k as int));
    }
    assert(deletes@.take(deletes@.len() as int) =~= deletes@);
    let mut k: usize = 0;
    while k < return_annotations.len()
        invariant
            toks == views_of(tokens@),
            forall|q: int|
                0 <= q < return_annotations@.len() ==> first_from(toks, #[trigger] return_annotations@[q].start, 0) is Some,
            k <= return_annotations@.len(),
            all@ == with_arrows(toks, deletes@, return_annotations@.take(k as int)),
        decreases return_annotations@.len() - k,
    {
        let ghost before = all@;
        proof {
            assert(return_annotations@.take(k + 1).drop_last() =~= return_annotations@.take(k as int));
            assert(return_annotations@.take(k + 1).last() == return_annotations@[k as int]);
        }
        match arrow_span_of(tokens, return_annotations[k]) {
            Some(sp) => all.push(sp),
            None => {},
        }
        k = k + 1;
    }
    assert(return_annotations@.take(return_annotations@.len() as int) =~= return_annotations@);
    if all.len() == 0 && replaced.len() == 0 {
        return (copy_all(tokens), false);
    }
    let mut dropped: Vec<bool> = Vec::new();
    let mut i: usize = 0;
    while i < tokens.len()
        invariant
            toks == views_of(tokens@),
            i <= toks.len(),
            dropped@.len() == i,
            forall|j: int| 0 <= j < i ==> dropped@[j] == annotation_dropped(toks, all@)[j],
        decreases toks.len() - i,
    {
        let t = &tokens[i];
        assert(toks[i as int] == t@);
        let mut hit = false;
        let mut m: usize = 0;
        while m < all.len()
            invariant
                i < toks.len(),
                toks[i as int] == t@,
                m <= all@.len(),
                hit == exists|q: int| 0 <= q < m && inside(toks[i as int], all@[q]),
            decreases all@.len() - m,
        {
            if t.start >= all[m].start && t.end <= all[m].end {
                hit = true;
            }
            proof {
                if hit && !(exists|q: int| 0 <= q < m && inside(toks[i as int], all@[q])) {
                    assert(inside(toks[i as int], all@[m as int]));
                }
            }
            m = m + 1;
        }
        dropped.push(hit);
        i = i + 1;
    }
    assert(dropped@ =~= annotation_dropped(toks, all@));
    (replace_tokens(tokens, replaced, &dropped), true)
}

proof fn lemma_merge_plain(toks: Seq<TokView>, i: int, at_line_start: bool)
    requires
        0 <= i <= toks.len(),
        forall|j: int| 0 <= j < toks.len() ==> !((#[trigger] toks[j]).kind is Import || toks[j].kind is From),
    ensures
        merge_rest(toks, i, None, at_line_start) == (toks.subrange(i, toks.len() as int), false),
    decreases toks.len() - i,
{
    if i == toks.len() {
        assert(toks.subrange(i, toks.len() as int) =~= Seq::<TokView>::empty());
    } else {
        let t = toks[i];
        assert(!(t.kind is Import || t.kind is From));
        if t.kind is NonLogicalNewline {
            lemma_merge_plain(toks, i + 1, true);
        } else {
            lemma_merge_plain(
                toks,
                i + 1,
                t.kind is Newline || t.kind is Indent || t.kind is Dedent,
            );
        }
        assert(seq![t] + toks.subrange(i + 1, toks.len() as int) =~= toks.subrange(
            i,
            toks.len() as int,
        ));
        assert(Seq::<TokView>::empty() + seq![t] + toks.subrange(i + 1, toks.len() as int)
            =~= toks.subrange(i, toks.len() as int));
    }
}

/// Merging touches nothing but imports: a stream without an `import` or
/// `from` keyword comes back exactly as it was, reported unchanged.
pub proof fn law_merge_leaves_import_free_code_alone(toks: Seq<TokView>)
    requires
        forall|j: int| 0 <= j < toks.len() ==> !((#[trigger] toks[j]).kind is Import || toks[j].kind is From),
    ensures
        merged(toks) == (toks, false),
{
    lemma_merge_plain(toks, 0, true);
    assert(toks.subrange(0, toks.len() as int) =~= toks);
}

proof fn lemma_settled_multiset(toks: Seq<TokView>, i: int)
    requires
        0 <= i <= toks.len(),
    ensures
        settled_from(toks, i).to_multiset() == toks.subrange(i, toks.len() as int).to_multiset(),
    decreases toks.len() - i,
{
    broadcast use vstd::seq_lib::lemma_multiset_commutative;

    let rest = toks.subrange(i, toks.len() as int);
    if i == toks.len() {
        assert(rest =~= Seq::<TokView>::empty());
        assert(settled_from(toks, i) =~= Seq::<TokView>::empty());
    } else if toks[i].kind is Indent {
        let e = run_end(toks, i + 1);
        lemma_run_end(toks, i + 1);
        lemma_settled_multiset(toks, e);
        let tail = toks.subrange(e, toks.len() as int);
        assert(rest =~= toks.subrange(i, e) + tail);
        if holds_comment(toks, i + 1, e) {
            let mid = toks.subrange(i + 1, e);
            assert(toks.subrange(i, e) =~= seq![toks[i]] + mid);
            assert(mid.push(toks[i]) =~= mid + seq![toks[i]]);
            assert((mid + seq![toks[i]]).to_multiset() =~= (seq![toks[i]] + mid).to_multiset());
        }
    } else {
        lemma_settled_multiset(toks, i + 1);
        assert(rest =~= seq![toks[i]] + toks.subrange(i + 1, toks.len() as int));
    }
}

/// Settling indents only rearranges the stream: every token comes out as
/// often as it went in.
pub proof fn law_settling_rearranges(toks: Seq<TokView>)
    ensures
        settled_from(toks, 0).to_multiset() == toks.to_multiset(),
        settled_from(toks, 0).len() == toks.len(),
{
    lemma_settled_multiset(toks, 0);
    assert(toks.subrange(0, toks.len() as int) =~= toks);
    settled_from(toks, 0).to_multiset_ensures();
    toks.to_multiset_ensures();
}

/// The logical tokens of a stream: every token but the non-logical
/// newlines of blank lines and bracketed continuations.
pub open spec fn logical(s: Seq<TokView>) -> Seq<TokView>
    decreases s.len(),
{
    if s.len() == 0 {
        s
    } else if s.last().kind is NonLogicalNewline {
        logical(s.drop_last())
    } else {
        logical(s.drop_last()).push(s.last())
    }
}

proof fn lemma_logical_concat(a: Seq<TokView>, b: Seq<TokView>)
    ensures
        logical(a + b) == logical(a) + logical(b),
    decreases b.len(),
{
    if b.len() == 0 {
        assert(a + b =~= a);
        assert(logical(a) + logical(b) =~= logical(a));
    } else {
        assert((a + b).drop_last() =~= a + b.drop_last());
        assert((a + b).last() == b.last());
        lemma_logical_concat(a, b.drop_last());
        if !(b.last().kind is NonLogicalNewline) {
            assert(logical(a) + logical(b.drop_last()).push(b.last()) =~= (logical(a) + logical(
                b.drop_last(),
            )).push(b.last()));
        }
    }
}

proof fn lemma_logical_one(t: TokView)
    ensures
        logical(seq![t]) == (if t.kind is NonLogicalNewline {
            Seq::<TokView>::empty()
        } else {
            seq![t]
        }),
{
    let e = Seq::<TokView>::empty();
    assert(seq![t].drop_last() =~= e);
    assert(seq![t].last() == t);
    assert(logical(e) == e);
    assert(e.push(t) =~= seq![t]);
}

/// The withheld newline of the pending import, as a stream.
pub open spec fn pending_seq(toks: Seq<TokView>, pending: Option<(Option<Seq<char>>, int)>) -> Seq<
    TokView,
> {
    match pending {
        Some((_, nl)) => seq![toks[nl]],
        None => Seq::empty(),
    }
}

proof fn lemma_unmerged(
    toks: Seq<TokView>,
    i: int,
    pending: Option<(Option<Seq<char>>, int)>,
    at_line_start: bool,
)
    requires
        0 <= i <= toks.len(),
        !merge_rest(toks, i, pending, at_line_start).1,
        pending matches Some((_, nl)) ==> 0 <= nl < toks.len() && toks[nl].kind is Newline,
    ensures
        logical(merge_rest(toks, i, pending, at_line_start).0) == pending_seq(toks, pending)
            + logical(toks.subrange(i, toks.len() as int)),
    decreases toks.len() - i,
{
    let ps = pending_seq(toks, pending);
    if let Some((_, nl)) = pending {
        lemma_logical_one(toks[nl]);
    } else {
        assert(logical(ps) =~= ps);
    }
    let rest = toks.subrange(i, toks.len() as int);
    if i == toks.len() {
        assert(rest =~= Seq::<TokView>::empty());
        assert(ps + logical(rest) =~= ps);
    } else {
        let t = toks[i];
        let tail = toks.subrange(i + 1, toks.len() as int);
        assert(rest =~= seq![t] + tail);
        lemma_logical_concat(seq![t], tail);
        lemma_logical_one(t);
        if t.kind is NonLogicalNewline {
            lemma_unmerged(toks, i + 1, pending, true);
            let r = merge_rest(toks, i + 1, pending, true);
            lemma_logical_concat(seq![t], r.0);
            assert(Seq::<TokView>::empty() + logical(r.0) =~= logical(r.0));
            assert(Seq::<TokView>::empty() + logical(tail) =~= logical(tail));
        } else {
            match import_here(toks, i, at_line_start) {
                Some((flavor, prefix, end)) => {
                    lemma_statement(toks, i);
                    assert(i < end < toks.len());
                    let r = merge_rest(toks, end + 1, Some((flavor, end)), true);
                    lemma_unmerged(toks, end + 1, Some((flavor, end)), true);
                    let pre = toks.subrange(i, i + prefix);
                    let mid = toks.subrange(i + prefix, end);
                    let after = toks.subrange(end + 1, toks.len() as int);
                    assert(rest =~= pre + mid + seq![toks[end]] + after);
                    lemma_logical_concat(pre + mid + seq![toks[end]], after);
                    lemma_logical_concat(pre + mid, seq![toks[end]]);
                    lemma_logical_concat(pre, mid);
                    lemma_logical_one(toks[end]);
                    lemma_logical_concat(ps + pre + mid, r.0);
                    lemma_logical_concat(ps + pre, mid);
                    lemma_logical_concat(ps, pre);
                    assert(merge_rest(toks, i, pending, at_line_start).0 == ps + pre + mid + r.0);
                    assert(logical(ps + pre + mid + r.0) =~= ps + logical(rest));
                },
                None => {
                    let ls = t.kind is Newline || t.kind is Indent || t.kind is Dedent;
                    let r = merge_rest(toks, i + 1, None, ls);
                    lemma_unmerged(toks, i + 1, None, ls);
                    assert(merge_rest(toks, i, pending, at_line_start).0 == ps + seq![t] + r.0);
                    lemma_logical_concat(ps + seq![t], r.0);
                    lemma_logical_concat(ps, seq![t]);
                    assert(logical(ps + seq![t] + r.0) =~= ps + logical(rest));
                },
            }
        }
    }
}

/// A merge that merged nothing changed nothing but the order of blank-line
/// tokens: the logical tokens come out exactly as they went in.
pub proof fn law_unmerged_keeps_logical_tokens(toks: Seq<TokView>)
    requires
        !merged(toks).1,
    ensures
        logical(merged(toks).0) == logical(toks),
{
    lemma_unmerged(toks, 0, None, true);
    assert(toks.subrange(0, toks.len() as int) =~= toks);
    assert(pending_seq(toks, None) + logical(toks) =~= logical(toks));
}

proof fn lemma_unmerged_len(
    toks: Seq<TokView>,
    i: int,
    pending: Option<(Option<Seq<char>>, int)>,
    at_line_start: bool,
)
    requires
        0 <= i <= toks.len(),
        !merge_rest(toks, i, pending, at_line_start).1,
        pending matches Some((_, nl)) ==> 0 <= nl < toks.len(),
    ensures
        merge_rest(toks, i, pending, at_line_start).0.len() == pending_seq(toks, pending).len() + (
        toks.len() - i),
    decreases toks.len() - i,
{
    if i < toks.len() {
        let t = toks[i];
        if t.kind is NonLogicalNewline {
            lemma_unmerged_len(toks, i + 1, pending, true);
        } else {
            match import_here(toks, i, at_line_start) {
                Some((flavor, prefix, end)) => {
                    lemma_statement(toks, i);
                    lemma_unmerged_len(toks, end + 1, Some((flavor, end)), true);
                },
                None => {
                    let ls = t.kind is Newline || t.kind is Indent || t.kind is Dedent;
                    lemma_unmerged_len(toks, i + 1, None, ls);
                },
            }
        }
    }
}

/// A merge that merged nothing keeps the stream's length.
pub proof fn law_unmerged_keeps_the_length(toks: Seq<TokView>)
    requires
        !merged(toks).1,
    ensures
        merged(toks).0.len() == toks.len(),
{
    lemma_unmerged_len(toks, 0, None, true);
}

/// Whether a token is more than a blank-line or continuation newline.
pub open spec fn is_logical(t: TokView) -> bool {
    !(t.kind is NonLogicalNewline)
}

/// The texts of `toks[a..b]`'s logical tokens, one after another.
pub open spec fn joined_texts(toks: Seq<TokView>, a: int, b: int) -> Seq<char> {
    toks.subrange(a, b).filter(|t: TokView| is_logical(t)).map_values(|t: TokView| t.text).flatten()
}

proof fn lemma_module_text(toks: Seq<TokView>, a: int, b: int)
    requires
        0 <= a <= b <= toks.len(),
    ensures
        module_text(toks, a, b) == joined_texts(toks, a, b),
    decreases b - a,
{
    let pred = |t: TokView| is_logical(t);
    let text = |t: TokView| t.text;
    if b == a {
        assert(toks.subrange(a, b) =~= Seq::<TokView>::empty());
        reveal(Seq::filter);
        assert(toks.subrange(a, b).filter(pred) =~= Seq::<TokView>::empty());
        assert(toks.subrange(a, b).filter(pred).map_values(text) =~= Seq::<Seq<char>>::empty());
    } else {
        lemma_module_text(toks, a, b - 1);
        let head = toks.subrange(a, b - 1);
        assert(toks.subrange(a, b) =~= head.push(toks[b - 1]));
        head.lemma_filter_push(toks[b - 1], pred);
        let fh = head.filter(pred);
        if is_logical(toks[b - 1]) {
            assert(fh.push(toks[b - 1]).map_values(text) =~= fh.map_values(text).push(toks[b - 1].text));
            fh.map_values(text).lemma_flatten_push(toks[b - 1].text);
        } else {
            assert(module_text(toks, a, b) =~= module_text(toks, a, b - 1));
        }
    }
}

/// A `from` import names as its module everything between `from` and its
/// `import` keyword: the flavor two imports must share to merge is the
/// texts of all the logical tokens there, one after another, and the prefix
/// ends at that `import` keyword.
pub proof fn law_from_flavor_is_the_whole_module(toks: Seq<TokView>, i: int)
    requires
        0 <= i < toks.len(),
        toks[i].kind is From,
    ensures
        statement(toks, i) matches Some((f, p, e)) ==> {
            &&& 2 <= p
            &&& i + p - 1 < e < toks.len()
            &&& toks[i + p - 1].kind is Import
            &&& f == Some(joined_texts(toks, i + 1, i + p - 1))
        },
{
    lemma_stmt_end(toks, i);
    if let Some(e) = stmt_end(toks, i) {
        lemma_last_import(toks, i, e);
        if let Some(kw) = last_import(toks, i, e) {
            lemma_module_text(toks, i + 1, kw);
        }
    }
}

/// The tokens from `i` on that are not marked in `dropped`, in order.
pub open spec fn unmarked(toks: Seq<TokView>, dropped: Seq<bool>, i: int) -> Seq<TokView>
    decreases toks.len() - i,
{
    if i < 0 || i >= toks.len() {
        Seq::empty()
    } else {
        (if dropped[i] {
            Seq::empty()
        } else {
            seq![toks[i]]
        }) + unmarked(toks, dropped, i + 1)
    }
}

proof fn lemma_nothing_replaced(toks: Seq<TokView>, dropped: Seq<bool>, i: int, last: Option<Span>)
    requires
        0 <= i <= toks.len(),
    ensures
        replace_from(toks, Seq::empty(), dropped, i, last) == unmarked(toks, dropped, i),
    decreases toks.len() - i,
{
    if i < toks.len() {
        assert(first_containing(toks[i], Seq::<Span>::empty(), 0) is None);
        lemma_nothing_replaced(toks, dropped, i + 1, last);
    }
}

/// With no bare annotated name to replace, stripping annotations keeps
/// exactly the tokens outside every deleted span (the `-> annotation` spans
/// included), in their order.
pub proof fn law_annotation_strip_keeps_the_rest(
    toks: Seq<TokView>,
    deletes: Seq<Span>,
    return_annotations: Seq<Span>,
)
    requires
        with_arrows(toks, deletes, return_annotations).len() > 0,
    ensures
        annotations_stripped(toks, deletes, return_annotations, Seq::empty()) == (
            unmarked(
                toks,
                annotation_dropped(toks, with_arrows(toks, deletes, return_annotations)),
                0,
            ),
            true,
        ),
{
    lemma_nothing_replaced(
        toks,
        annotation_dropped(toks, with_arrows(toks, deletes, return_annotations)),
        0,
        None,
    );
}

/// With no sole docstring to replace, stripping docstrings keeps exactly the
/// tokens outside every cut, each as often as before, only the indents
/// moved behind the comment lines that now open their blocks.
pub proof fn law_docstring_strip_keeps_the_rest(toks: Seq<TokView>, deletes: Seq<Span>)
    requires
        deletes.len() > 0,
    ensures
        docstrings_stripped(toks, deletes, Seq::empty()).1,
        docstrings_stripped(toks, deletes, Seq::empty()).0.to_multiset() == unmarked(
            toks,
            docstring_dropped(toks, deletes),
            0,
        ).to_multiset(),
{
    let d = docstring_dropped(toks, deletes);
    lemma_nothing_replaced(toks, d, 0, None);
    law_settling_rearranges(unmarked(toks, d, 0));
}

/// Whether `t` is cut by some docstring of `deletes`.
pub open spec fn docstring_cut(toks: Seq<TokView>, deletes: Seq<Span>, t: TokView) -> bool {
    exists|k: int| 0 <= k < deletes.len() && #[trigger] cut_by(toks, deletes[k], t)
}

proof fn lemma_unmarked_filter(
    toks: Seq<TokView>,
    dropped: Seq<bool>,
    p: spec_fn(TokView) -> bool,
    i: int,
)
    requires
        0 <= i <= toks.len(),
        dropped.len() == toks.len(),
        forall|j: int| 0 <= j < toks.len() ==> dropped[j] == !p(#[trigger] toks[j]),
    ensures
        unmarked(toks, dropped, i) == toks.subrange(i, toks.len() as int).filter(p),
    decreases toks.len() - i,
{
    let rest = toks.subrange(i, toks.len() as int);
    if i == toks.len() {
        reveal(Seq::filter);
        assert(rest =~= Seq::<TokView>::empty());
    } else {
        lemma_unmarked_filter(toks, dropped, p, i + 1);
        let tail = toks.subrange(i + 1, toks.len() as int);
        assert(rest =~= seq![toks[i]] + tail);
        Seq::filter_distributes_over_add(seq![toks[i]], tail, p);
        let e = Seq::<TokView>::empty();
        assert(e.push(toks[i]) =~= seq![toks[i]]);
        e.lemma_filter_push(toks[i], p);
        reveal(Seq::filter);
        assert(e.filter(p) =~= e);
        if p(toks[i]) {
            assert(seq![toks[i]].filter(p) =~= seq![toks[i]]);
        } else {
            assert(seq![toks[i]].filter(p) =~= e);
            assert(e + tail.filter(p) =~= tail.filter(p));
        }
    }
}

/// Stripping docstrings removes exactly the tokens some docstring of
/// `deletes` cuts and keeps every other token, each as often as before: no
/// token inside any deleted docstring survives, whichever of them it lies
/// in.
pub proof fn law_every_deleted_docstring_goes(toks: Seq<TokView>, deletes: Seq<Span>)
    ensures
        docstrings_stripped(toks, deletes, Seq::empty()).0.to_multiset() == toks.filter(
            |t: TokView| !docstring_cut(toks, deletes, t),
        ).to_multiset(),
{
    let p = |t: TokView| !docstring_cut(toks, deletes, t);
    let d = docstring_dropped(toks, deletes);
    assert forall|j: int| 0 <= j < toks.len() implies d[j] == !p(#[trigger] toks[j]) by {}
    lemma_unmarked_filter(toks, d, p, 0);
    assert(toks.subrange(0, toks.len() as int) =~= toks);
    if deletes.len() == 0 {
        lemma_nothing_replaced(toks, d, 0, None);
        assert forall|j: int| 0 <= j < toks.len() implies !#[trigger] d[j] by {}
        lemma_unmarked_all(toks, d, 0);
        assert(toks.subrange(0, toks.len() as int) =~= toks);
    } else {
        law_docstring_strip_keeps_the_rest(toks, deletes);
    }
}

proof fn lemma_unmarked_all(toks: Seq<TokView>, dropped: Seq<bool>, i: int)
    requires
        0 <= i <= toks.len(),
        dropped.len() == toks.len(),
        forall|j: int| 0 <= j < toks.len() ==> !#[trigger] dropped[j],
    ensures
        unmarked(toks, dropped, i) == toks.subrange(i, toks.len() as int),
    decreases toks.len() - i,
{
    if i < toks.len() {
        lemma_unmarked_all(toks, dropped, i + 1);
        assert(toks.subrange(i, toks.len() as int) =~= seq![toks[i]] + toks.subrange(
            i + 1,
            toks.len() as int,
        ));
    } else {
        assert(toks.subrange(i, toks.len() as int) =~= Seq::<TokView>::empty());
    }
}

proof fn lemma_first_separator(toks: Seq<TokView>, s: Span, j: int)
    ensures
        first_separator(toks, s, j) matches Some(x) ==> 0 <= x < toks.len() && toks[x].start >= s.end,
    decreases toks.len() - j,
{
    if 0 <= j < toks.len() {
        lemma_first_separator(toks, s, j + 1);
    }
}

/// Every token that starts inside a deleted docstring and is not a comment
/// is cut, and so does not survive the stripping: the cut reaches at least
/// to the end of the docstring.
pub proof fn law_docstring_tokens_are_cut(toks: Seq<TokView>, deletes: Seq<Span>, k: int, t: TokView)
    requires
        forall|j: int| 0 <= j < toks.len() ==> (#[trigger] toks[j]).start <= toks[j].end,
        0 <= k < deletes.len(),
        deletes[k].start <= t.start < deletes[k].end,
        !(t.kind is Comment),
    ensures
        docstring_cut(toks, deletes, t),
{
    lemma_first_separator(toks, deletes[k], 0);
    assert(cut_by(toks, deletes[k], t));
}

} // verus!
