//! Checking a Python rendering against its source. The output must parse,
//! have the same syntax tree, and carry the same token stream once the
//! differences formatting is allowed to make are erased: non-logical
//! newlines and the end marker dropped, the text of layout tokens ignored,
//! trailing newlines trimmed, and comments left out when they are stripped.
use vstd::prelude::*;
use crate::error::Error;
use crate::options::VerifyLevel;
use crate::python::emit::{PyKind, PyTok, TokView, views_of};
use crate::text::str_eq;

verus! {

/// Whether a token takes part in the comparison.
pub open spec fn compared(t: TokView, strip: bool) -> bool {
    !(t.kind is NonLogicalNewline || t.kind is EndOfFile || (t.kind is Comment && strip))
}

/// Whether only a token's kind is compared, not its text.
pub open spec fn layout(k: PyKind) -> bool {
    k is Indent || k is Dedent || k is Newline
}

/// What is compared of one token: its kind, and its text unless it is a
/// layout token.
pub open spec fn canon(t: TokView) -> (PyKind, Option<Seq<char>>) {
    (t.kind, if layout(t.kind) {
        None
    } else {
        Some(t.text)
    })
}

/// The compared form of the first `n` tokens.
pub open spec fn canonical_prefix(toks: Seq<TokView>, n: int, strip: bool) -> Seq<
    (PyKind, Option<Seq<char>>),
>
    decreases n,
{
    if n <= 0 {
        Seq::empty()
    } else {
        canonical_prefix(toks, n - 1, strip) + (if compared(toks[n - 1], strip) {
            seq![canon(toks[n - 1])]
        } else {
            Seq::empty()
        })
    }
}

/// `s` without its trailing newline entries.
pub open spec fn trim_trailing_newlines(s: Seq<(PyKind, Option<Seq<char>>)>) -> Seq<
    (PyKind, Option<Seq<char>>),
>
    decreases s.len(),
{
    if s.len() > 0 && s.last().0 is Newline {
        trim_trailing_newlines(s.drop_last())
    } else {
        s
    }
}

/// The compared form of a token stream.
pub open spec fn canonical(toks: Seq<TokView>, strip: bool) -> Seq<(PyKind, Option<Seq<char>>)> {
    trim_trailing_newlines(canonical_prefix(toks, toks.len() as int, strip))
}

/// The positions of the compared tokens, trailing newlines trimmed.
fn canonical_positions(toks: &[PyTok], strip: bool) -> (r: Vec<usize>)
    ensures
        forall|j: int| 0 <= j < r@.len() ==> r@[j] < toks@.len(),
        r@.map_values(|p: usize| canon(views_of(toks@)[p as int])) == canonical(views_of(toks@), strip),
{
    let mut r: Vec<usize> = Vec::new();
    let mut i: usize = 0;
    while i < toks.len()
        invariant
            i <= toks@.len(),
            forall|j: int| 0 <= j < r@.len() ==> r@[j] < i,
            r@.map_values(|p: usize| canon(views_of(toks@)[p as int])) == canonical_prefix(
                views_of(toks@),
                i as int,
                strip,
            ),
        decreases toks@.len() - i,
    {
        let t = &toks[i];
        let skip = match t.kind {
            PyKind::NonLogicalNewline | PyKind::EndOfFile => true,
            PyKind::Comment => strip,
            _ => false,
        };
        if !skip {
            let ghost before = r@;
            r.push(i);
            assert(r@.map_values(|p: usize| canon(views_of(toks@)[p as int])) =~= before.map_values(
                |p: usize| canon(views_of(toks@)[p as int]),
            ).push(canon(views_of(toks@)[i as int])));
        }
        i = i + 1;
        assert(canonical_prefix(views_of(toks@), i as int, strip) =~= canonical_prefix(
            views_of(toks@),
            i - 1,
            strip,
        ) + (if compared(views_of(toks@)[i - 1], strip) {
            seq![canon(views_of(toks@)[i - 1])]
        } else {
            Seq::empty()
        }));
    }
    let ghost full = r@.map_values(|p: usize| canon(views_of(toks@)[p as int]));
    while r.len() > 0 && toks[r[r.len() - 1]].kind == PyKind::Newline
        invariant
            forall|j: int| 0 <= j < r@.len() ==> r@[j] < toks@.len(),
            trim_trailing_newlines(r@.map_values(|p: usize| canon(views_of(toks@)[p as int])))
                == trim_trailing_newlines(full),
        decreases r@.len(),
    {
        let ghost before = r@;
        r.pop();
        assert(r@.map_values(|p: usize| canon(views_of(toks@)[p as int])) =~= before.map_values(
            |p: usize| canon(views_of(toks@)[p as int]),
        ).drop_last());
    }
    r
}

/// Whether two token streams are the same once formatting differences are
/// erased.
pub fn same_canonical(a: &[PyTok], b: &[PyTok], strip: bool) -> (r: bool)
    ensures
        r == (canonical(views_of(a@), strip) == canonical(views_of(b@), strip)),
{
    let pa = canonical_positions(a, strip);
    let pb = canonical_positions(b, strip);
    let ghost ca = pa@.map_values(|p: usize| canon(views_of(a@)[p as int]));
    let ghost cb = pb@.map_values(|p: usize| canon(views_of(b@)[p as int]));
    if pa.len() != pb.len() {
        assert(ca.len() != cb.len());
        return false;
    }
    let mut k: usize = 0;
    while k < pa.len()
        invariant
            pa@.len() == pb@.len(),
            forall|j: int| 0 <= j < pa@.len() ==> pa@[j] < a@.len(),
            forall|j: int| 0 <= j < pb@.len() ==> pb@[j] < b@.len(),
            ca == pa@.map_values(|p: usize| canon(views_of(a@)[p as int])),
            cb == pb@.map_values(|p: usize| canon(views_of(b@)[p as int])),
            ca == canonical(views_of(a@), strip),
            cb == canonical(views_of(b@), strip),
            k <= pa@.len(),
            forall|j: int| 0 <= j < k ==> ca[j] == cb[j],
        decreases pa@.len() - k,
    {
        let x = &a[pa[k]];
        let y = &b[pb[k]];
        assert(ca[k as int] == canon(views_of(a@)[pa@[k as int] as int]));
        assert(cb[k as int] == canon(views_of(b@)[pb@[k as int] as int]));
        if x.kind != y.kind {
            return false;
        }
        let text_only = match x.kind {
            PyKind::Indent | PyKind::Dedent | PyKind::Newline => false,
            _ => true,
        };
        if text_only && !str_eq(x.text.as_str(), y.text.as_str()) {
            return false;
        }
        k = k + 1;
    }
    assert(ca =~= cb);
    true
}

/// What the output's parser made of it: its tokens, and whether its syntax
/// tree equals the source's once positions are ignored.
#[derive(Clone, Debug)]
pub struct Reparsed {
    pub tokens: Vec<PyTok>,
    pub same_ast: bool,
}

/// The message a rejected rendering is reported with, given the tokens it
/// was rendered from, whether a pass changed them, and what parsing the
/// output gave (its parser's message when it failed). A changed stream is
/// meant to have another syntax tree, so only its tokens are compared.
pub open spec fn output_verdict(
    level: VerifyLevel,
    source: Seq<TokView>,
    modified: bool,
    reparsed: Result<(Seq<TokView>, bool), Seq<char>>,
    strip: bool,
) -> Result<(), Seq<char>> {
    match reparsed {
        Err(m) => Err("output failed to re-parse: parse error: "@ + m),
        Ok((toks, same_ast)) => if level is Reparse {
            Ok(())
        } else if !modified && !same_ast {
            Err("output AST differs from input"@)
        } else if canonical(source, strip) != canonical(toks, strip) {
            Err("output token stream differs from input"@)
        } else {
            Ok(())
        },
    }
}

/// The plain view of a reparse outcome.
pub open spec fn reparsed_view(r: Result<Reparsed, String>) -> Result<(Seq<TokView>, bool), Seq<char>> {
    match r {
        Ok(p) => Ok((views_of(p.tokens@), p.same_ast)),
        Err(m) => Err(m@),
    }
}

/// Judges a rendering at `level`: it must parse; beyond `reparse`, its tree
/// must equal the source's unless a pass changed the stream, and its
/// compared tokens must equal those it was rendered from. The external level
/// runs the same checks, for no toolchain is invoked for Python.
pub fn verdict(
    level: VerifyLevel,
    source: &[PyTok],
    modified: bool,
    reparsed: Result<Reparsed, String>,
    strip: bool,
) -> (r: Result<(), Error>)
    ensures
        match output_verdict(level, views_of(source@), modified, reparsed_view(reparsed), strip) {
            Ok(()) => r is Ok,
            Err(m) => r matches Err(e) && e matches Error::Verification(s) && s@ == m,
        },
{
    match reparsed {
        Err(m) => Err(
            Error::Verification(
                String::from_str("output failed to re-parse: parse error: ").concat(m.as_str()),
            ),
        ),
        Ok(p) => {
            match level {
                VerifyLevel::Reparse => {
                    return Ok(());
                },
                _ => {},
            }
            if !modified && !p.same_ast {
                return Err(Error::Verification(String::from_str("output AST differs from input")));
            }
            if !same_canonical(source, p.tokens.as_slice(), strip) {
                return Err(
                    Error::Verification(String::from_str("output token stream differs from input")),
                );
            }
            Ok(())
        },
    }
}

} // verus!
