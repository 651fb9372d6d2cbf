//! Re-rendering a lexed Python token stream with minimal whitespace: no
//! spaces but where two tokens would lex differently glued, one character of
//! indent per block level, no blank lines, continuation lines joined, and
//! comments either dropped or kept on their own lines.
use vstd::prelude::*;
use crate::text::{chars_of, string_of};

verus! {

/// The kind of a Python token, as far as rendering and verification tell
/// kinds apart. Every other kind is carried by its number so that two
/// streams can still be compared kind for kind.
#[derive(Clone, Copy, Debug, PartialEq, Eq, Structural)]
pub enum PyKind {
    Name,
    Int,
    Float,
    Complex,
    Comment,
    Newline,
    NonLogicalNewline,
    Indent,
    Dedent,
    EndOfFile,
    Import,
    From,
    Lpar,
    Star,
    Semi,
    Comma,
    Rarrow,
    Pass,
    Other(u8),
}

/// One lexed token: its kind, the exact source text it covers, and the
/// byte range of that text in the source.
#[derive(Clone, Debug)]
pub struct PyTok {
    pub kind: PyKind,
    pub text: String,
    pub start: usize,
    pub end: usize,
}

/// A token as a mathematical value.
pub struct TokView {
    pub kind: PyKind,
    pub text: Seq<char>,
    pub start: usize,
    pub end: usize,
}

impl View for PyTok {
    type V = TokView;

    open spec fn view(&self) -> TokView {
        TokView { kind: self.kind, text: self.text@, start: self.start, end: self.end }
    }
}

/// The views of a token stream.
pub open spec fn views_of(ts: Seq<PyTok>) -> Seq<TokView> {
    ts.map_values(|t: PyTok| t@)
}

/// Whether `char::is_alphanumeric` holds of `c` (the Unicode `Alphabetic`
/// or `Numeric` property).
pub uninterp spec fn alphanumeric(c: char) -> bool;

/// `char::is_alphanumeric`.
#[verifier::external_body]
fn is_alphanumeric(c: char) -> (r: bool)
    ensures
        r == alphanumeric(c),
{
    c.is_alphanumeric()
}

/// A character that can continue a name or a number.
pub open spec fn word_char(c: char) -> bool {
    alphanumeric(c) || c == '_'
}

fn is_word(c: char) -> (r: bool)
    ensures
        r == word_char(c),
{
    is_alphanumeric(c) || c == '_'
}

/// Two characters that lex as one operator when glued.
pub open spec fn glues(p: char, n: char) -> bool {
    ||| (p == '*' && (n == '*' || n == '='))
    ||| (p == '/' && (n == '/' || n == '='))
    ||| (p == '<' && (n == '<' || n == '='))
    ||| (p == '>' && (n == '>' || n == '='))
    ||| (p == '-' && (n == '>' || n == '='))
    ||| (n == '=' && (p == '=' || p == '!' || p == ':' || p == '+' || p == '%' || p == '@' || p
        == '&' || p == '|' || p == '^'))
}

fn glue_pair(p: char, n: char) -> (r: bool)
    ensures
        r == glues(p, n),
{
    (p == '*' && (n == '*' || n == '=')) || (p == '/' && (n == '/' || n == '=')) || (p == '<' && (
    n == '<' || n == '=')) || (p == '>' && (n == '>' || n == '=')) || (p == '-' && (n == '>' || n
        == '=')) || (n == '=' && (p == '=' || p == '!' || p == ':' || p == '+' || p == '%' || p
        == '@' || p == '&' || p == '|' || p == '^'))
}

/// The last character of a token's text, `'\0'` for an empty one.
pub open spec fn last_char(t: Seq<char>) -> char {
    if t.len() == 0 {
        '\0'
    } else {
        t.last()
    }
}

/// The first character of a token's text, `'\0'` for an empty one.
pub open spec fn first_char(t: Seq<char>) -> char {
    if t.len() == 0 {
        '\0'
    } else {
        t[0]
    }
}

/// Whether a number kind.
pub open spec fn numeric(k: PyKind) -> bool {
    k is Int || k is Float || k is Complex
}

/// Whether removing the whitespace between `prev` and `next` would change how
/// the pair lexes: two word characters run together, two characters form one
/// operator, a number takes the dot of an attribute as its fraction, two
/// same-quote strings open a triple quote, or a name becomes a string prefix.
pub open spec fn needs_space_spec(prev: TokView, next: TokView) -> bool {
    let p = last_char(prev.text);
    let n = first_char(next.text);
    ||| (word_char(p) && word_char(n))
    ||| glues(p, n)
    ||| (numeric(prev.kind) && n == '.')
    ||| ((p == '"' || p == '\'') && n == p)
    ||| (prev.kind == PyKind::Name && (n == '"' || n == '\''))
}

/// Whether a space must separate `prev` and `next`.
pub fn needs_space(prev: &PyTok, next: &PyTok) -> (r: bool)
    ensures
        r == needs_space_spec(prev@, next@),
{
    let pt = chars_of(prev.text.as_str());
    let nt = chars_of(next.text.as_str());
    let p = if pt.len() == 0 {
        '\0'
    } else {
        pt[pt.len() - 1]
    };
    let n = if nt.len() == 0 {
        '\0'
    } else {
        nt[0]
    };
    if is_word(p) && is_word(n) {
        return true;
    }
    if glue_pair(p, n) {
        return true;
    }
    let number = match prev.kind {
        PyKind::Int | PyKind::Float | PyKind::Complex => true,
        _ => false,
    };
    if number && n == '.' {
        return true;
    }
    if (p == '"' || p == '\'') && n == p {
        return true;
    }
    prev.kind == PyKind::Name && (n == '"' || n == '\'')
}

/// `n` spaces.
pub open spec fn spaces(n: nat) -> Seq<char> {
    Seq::new(n, |i: int| ' ')
}

/// Pending comments written out, each on its own line at indent `depth`.
pub open spec fn flushed(toks: Seq<TokView>, pending: Seq<int>, depth: nat) -> Seq<char>
    decreases pending.len(),
{
    if pending.len() == 0 {
        Seq::empty()
    } else {
        flushed(toks, pending.drop_last(), depth) + spaces(depth) + toks[pending.last()].text
            + seq!['\n']
    }
}

/// Where rendering stands after some tokens: the text so far, the block
/// depth, the last token on the current line (`None` right after a line
/// break), and the comments waiting for the next real token to learn its
/// indent.
pub struct Rendering {
    pub out: Seq<char>,
    pub depth: nat,
    pub prev: Option<int>,
    pub pending: Seq<int>,
}

/// Whether a kind is a real token that is written out.
pub open spec fn written(k: PyKind) -> bool {
    !(k is Indent || k is Dedent || k is NonLogicalNewline || k is EndOfFile || k is Newline
        || k is Comment)
}

/// One token's effect on the rendering: indents and dedents move the depth,
/// a logical newline breaks the line once, a kept comment either ends the
/// current line or waits for the next real token, and a real token is
/// written after the waiting comments, at the block's indent or after the
/// space its neighbour needs.
pub open spec fn step(toks: Seq<TokView>, st: Rendering, i: int, strip: bool) -> Rendering {
    let t = toks[i];
    match t.kind {
        PyKind::Indent => Rendering { depth: st.depth + 1, ..st },
        PyKind::Dedent => Rendering {
            depth: if st.depth > 0 {
                (st.depth - 1) as nat
            } else {
                0
            },
            ..st
        },
        PyKind::NonLogicalNewline => st,
        PyKind::EndOfFile => st,
        PyKind::Newline => Rendering {
            out: if st.prev is Some {
                st.out.push('\n')
            } else {
                st.out
            },
            prev: None,
            ..st
        },
        PyKind::Comment => if strip {
            st
        } else if st.prev is Some {
            Rendering { out: st.out + seq![' '] + t.text + seq!['\n'], prev: None, ..st }
        } else {
            Rendering { pending: st.pending.push(i), ..st }
        },
        _ => Rendering {
            out: st.out + flushed(toks, st.pending, st.depth) + (match st.prev {
                None => spaces(st.depth),
                Some(p) => if needs_space_spec(toks[p], t) {
                    seq![' ']
                } else {
                    Seq::empty()
                },
            }) + t.text,
            prev: Some(i),
            pending: Seq::empty(),
            ..st
        },
    }
}

/// The rendering after the first `n` tokens.
pub open spec fn rendering(toks: Seq<TokView>, n: int, strip: bool) -> Rendering
    decreases n,
{
    if n <= 0 {
        Rendering { out: Seq::empty(), depth: 0, prev: None, pending: Seq::empty() }
    } else {
        step(toks, rendering(toks, n - 1, strip), n - 1, strip)
    }
}

/// `s` without its trailing line feeds.
pub open spec fn trim_newlines(s: Seq<char>) -> Seq<char>
    decreases s.len(),
{
    if s.len() > 0 && s.last() == '\n' {
        trim_newlines(s.drop_last())
    } else {
        s
    }
}

/// The rendered text of a token stream: every token stepped through, the
/// comments still waiting written out, and the trailing line feeds dropped.
pub open spec fn rendered(toks: Seq<TokView>, strip: bool) -> Seq<char> {
    let st = rendering(toks, toks.len() as int, strip);
    trim_newlines(st.out + flushed(toks, st.pending, st.depth))
}

fn push_spaces(out: &mut Vec<char>, n: usize)
    ensures
        final(out)@ == old(out)@ + spaces(n as nat),
{
    let mut i: usize = 0;
    while i < n
        invariant
            i <= n,
            out@ == old(out)@ + spaces(i as nat),
        decreases n - i,
    {
        out.push(' ');
        i = i + 1;
        assert(out@ =~= old(out)@ + spaces(i as nat));
    }
}

fn push_text(out: &mut Vec<char>, t: &str)
    ensures
        final(out)@ == old(out)@ + t@,
{
    let cs = chars_of(t);
    let mut i: usize = 0;
    while i < cs.len()
        invariant
            cs@ == t@,
            i <= cs@.len(),
            out@ == old(out)@ + t@.take(i as int),
        decreases cs@.len() - i,
    {
        out.push(cs[i]);
        i = i + 1;
        assert(out@ =~= old(out)@ + t@.take(i as int));
    }
    assert(t@.take(cs@.len() as int) =~= t@);
}

/// Writes the pending comments out, each on its own line at `depth`.
fn flush(out: &mut Vec<char>, toks: &[PyTok], pending: &Vec<usize>, depth: usize)
    requires
        forall|j: int| 0 <= j < pending@.len() ==> pending@[j] < toks@.len(),
    ensures
        final(out)@ == old(out)@ + flushed(
            views_of(toks@),
            pending@.map_values(|p: usize| p as int),
            depth as nat,
        ),
{
    let ghost ps = pending@.map_values(|p: usize| p as int);
    let mut k: usize = 0;
    while k < pending.len()
        invariant
            ps == pending@.map_values(|p: usize| p as int),
            forall|j: int| 0 <= j < pending@.len() ==> pending@[j] < toks@.len(),
            k <= pending@.len(),
            out@ == old(out)@ + flushed(views_of(toks@), ps.take(k as int), depth as nat),
        decreases pending@.len() - k,
    {
        push_spaces(out, depth);
        push_text(out, toks[pending[k]].text.as_str());
        out.push('\n');
        proof {
            let q = ps.take(k + 1);
            assert(q.drop_last() =~= ps.take(k as int));
            assert(q.last() == pending@[k as int] as int);
            assert(views_of(toks@)[pending@[k as int] as int] == toks@[pending@[k as int] as int]@);
            assert(out@ =~= old(out)@ + flushed(views_of(toks@), q, depth as nat));
        }
        k = k + 1;
    }
    assert(ps.take(pending@.len() as int) =~= ps);
}

/// The rendering relation between the loop's variables and the spec state.
pub open spec fn mirrors(
    st: Rendering,
    out: Seq<char>,
    depth: usize,
    prev: Option<usize>,
    pending: Seq<usize>,
) -> bool {
    &&& st.out == out
    &&& st.depth == depth as nat
    &&& st.prev == (match prev {
        Some(p) => Some(p as int),
        None => None,
    })
    &&& st.pending == pending.map_values(|p: usize| p as int)
}

/// Re-renders a token stream with minimal whitespace; comments are dropped
/// when `strip_comments`, and otherwise kept, each ending its line.
pub fn render(tokens: &[PyTok], strip_comments: bool) -> (r: String)
    ensures
        r@ == rendered(views_of(tokens@), strip_comments),
{
    let ghost toks = views_of(tokens@);
    let mut out: Vec<char> = Vec::new();
    let mut depth: usize = 0;
    let mut prev: Option<usize> = None;
    let mut pending: Vec<usize> = Vec::new();
    let mut i: usize = 0;
    assert(pending@.map_values(|p: usize| p as int) =~= Seq::<int>::empty());
    while i < tokens.len()
        invariant
            toks == views_of(tokens@),
            i <= toks.len(),
            depth <= i,
            prev matches Some(p) ==> p < i,
            forall|j: int| 0 <= j < pending@.len() ==> pending@[j] < i,
            mirrors(rendering(toks, i as int, strip_comments), out@, depth, prev, pending@),
        decreases toks.len() - i,
    {
        let ghost st = rendering(toks, i as int, strip_comments);
        let t = &tokens[i];
        assert(toks[i as int] == t@);
        match t.kind {
            PyKind::Indent => {
                depth = depth + 1;
            },
            PyKind::Dedent => {
                if depth > 0 {
                    depth = depth - 1;
                }
            },
            PyKind::NonLogicalNewline | PyKind::EndOfFile => {},
            PyKind::Newline => {
                if prev.is_some() {
                    out.push('\n');
                }
                prev = None;
            },
            PyKind::Comment => {
                if !strip_comments {
                    if prev.is_some() {
                        out.push(' ');
                        push_text(&mut out, t.text.as_str());
                        out.push('\n');
                        prev = None;
                    } else {
                        pending.push(i);
                        assert(pending@.map_values(|p: usize| p as int) =~= st.pending.push(
                            i as int,
                        ));
                    }
                }
            },
            _ => {
                flush(&mut out, tokens, &pending, depth);
                match prev {
                    None => push_spaces(&mut out, depth),
                    Some(p) => {
                        assert(toks[p as int] == tokens@[p as int]@);
                        if needs_space(&tokens[p], t) {
                            out.push(' ');
                        } else {
                            assert(out@ =~= out@ + Seq::<char>::empty());
                        }
                    },
                }
                push_text(&mut out, t.text.as_str());
                prev = Some(i);
                pending = Vec::new();
                assert(pending@.map_values(|p: usize| p as int) =~= Seq::<int>::empty());
            },
        }
        i = i + 1;
        proof {
            let next = step(toks, st, i - 1, strip_comments);
            assert(rendering(toks, i as int, strip_comments) == next);
            assert(out@ =~= next.out);
        }
    }
    flush(&mut out, tokens, &pending, depth);
    let ghost full = out@;
    while out.len() > 0 && out[out.len() - 1] == '\n'
        invariant
            trim_newlines(out@) == trim_newlines(full),
        decreases out@.len(),
    {
        let ghost before = out@;
        out.pop();
        assert(out@ =~= before.drop_last());
    }
    string_of(out.as_slice())
}

/// Whether a character is not whitespace the renderer could have inserted
/// or removed.
pub open spec fn shown(c: char) -> bool {
    c != ' ' && c != '\n'
}

/// The characters of `s` other than spaces and line feeds, in order.
pub open spec fn visible(s: Seq<char>) -> Seq<char>
    decreases s.len(),
{
    if s.len() == 0 {
        s
    } else if shown(s.last()) {
        visible(s.drop_last()).push(s.last())
    } else {
        visible(s.drop_last())
    }
}

/// Whether a token of kind `k` is written out: every real token, and
/// comments unless they are stripped.
pub open spec fn kept(k: PyKind, strip: bool) -> bool {
    written(k) || (k is Comment && !strip)
}

/// The texts of the first `n` tokens that are written out, run together.
pub open spec fn kept_text(toks: Seq<TokView>, n: int, strip: bool) -> Seq<char>
    decreases n,
{
    if n <= 0 {
        Seq::empty()
    } else {
        kept_text(toks, n - 1, strip) + (if kept(toks[n - 1].kind, strip) {
            toks[n - 1].text
        } else {
            Seq::empty()
        })
    }
}

/// The texts of the pending comments, run together.
pub open spec fn pending_text(toks: Seq<TokView>, pending: Seq<int>) -> Seq<char>
    decreases pending.len(),
{
    if pending.len() == 0 {
        Seq::empty()
    } else {
        pending_text(toks, pending.drop_last()) + toks[pending.last()].text
    }
}

/// Taking the visible characters distributes over concatenation.
pub proof fn lemma_visible_concat(a: Seq<char>, b: Seq<char>)
    ensures
        visible(a + b) == visible(a) + visible(b),
    decreases b.len(),
{
    if b.len() == 0 {
        assert(a + b =~= a);
        assert(visible(a) + visible(b) =~= visible(a));
    } else {
        assert((a + b).drop_last() =~= a + b.drop_last());
        assert((a + b).last() == b.last());
        lemma_visible_concat(a, b.drop_last());
        if shown(b.last()) {
            assert(visible(a) + visible(b.drop_last()).push(b.last()) =~= (visible(a) + visible(
                b.drop_last(),
            )).push(b.last()));
        }
    }
}

proof fn lemma_visible_spaces(n: nat)
    ensures
        visible(spaces(n)) == Seq::<char>::empty(),
    decreases n,
{
    if n > 0 {
        assert(spaces(n).drop_last() =~= spaces((n - 1) as nat));
        lemma_visible_spaces((n - 1) as nat);
    } else {
        assert(spaces(n) =~= Seq::<char>::empty());
    }
}

proof fn lemma_visible_blank(c: char)
    requires
        !shown(c),
    ensures
        visible(seq![c]) == Seq::<char>::empty(),
{
    let e = Seq::<char>::empty();
    assert(seq![c].drop_last() =~= e);
    assert(seq![c].last() == c);
    assert(visible(e) == e);
}

proof fn lemma_flushed_visible(toks: Seq<TokView>, pending: Seq<int>, depth: nat)
    ensures
        visible(flushed(toks, pending, depth)) == visible(pending_text(toks, pending)),
    decreases pending.len(),
{
    if pending.len() > 0 {
        let rest = flushed(toks, pending.drop_last(), depth);
        let t = toks[pending.last()].text;
        lemma_flushed_visible(toks, pending.drop_last(), depth);
        lemma_visible_concat(rest + spaces(depth) + t, seq!['\n']);
        lemma_visible_concat(rest + spaces(depth), t);
        lemma_visible_concat(rest, spaces(depth));
        lemma_visible_spaces(depth);
        lemma_visible_blank('\n');
        lemma_visible_concat(pending_text(toks, pending.drop_last()), t);
        assert(visible(rest) + Seq::<char>::empty() =~= visible(rest));
        assert(visible(rest + spaces(depth) + t) + Seq::<char>::empty() =~= visible(
            rest + spaces(depth) + t,
        ));
    } else {
        assert(visible(Seq::<char>::empty()) =~= Seq::<char>::empty());
    }
}

proof fn lemma_trim_visible(s: Seq<char>)
    ensures
        visible(trim_newlines(s)) == visible(s),
        trim_newlines(s).len() > 0 ==> trim_newlines(s).last() != '\n',
    decreases s.len(),
{
    if s.len() > 0 && s.last() == '\n' {
        lemma_trim_visible(s.drop_last());
    }
}

/// What every rendering state keeps: its text and its waiting comments show
/// exactly the kept texts so far, comments wait only at the start of a line,
/// and every remembered token is one already stepped through.
pub open spec fn rendering_ok(toks: Seq<TokView>, n: int, strip: bool) -> bool {
    let st = rendering(toks, n, strip);
    &&& visible(st.out) + visible(pending_text(toks, st.pending)) == visible(
        kept_text(toks, n, strip),
    )
    &&& st.pending.len() > 0 ==> st.prev is None
    &&& st.prev matches Some(p) ==> 0 <= p < n
}

proof fn lemma_rendering(toks: Seq<TokView>, n: int, strip: bool)
    requires
        0 <= n <= toks.len(),
    ensures
        rendering_ok(toks, n, strip),
    decreases n,
{
    if n == 0 {
        let st = rendering(toks, 0, strip);
        assert(visible(st.out) + visible(pending_text(toks, st.pending)) =~= Seq::<char>::empty());
        assert(kept_text(toks, 0, strip) =~= Seq::<char>::empty());
        assert(rendering_ok(toks, n, strip));
    } else {
        lemma_rendering(toks, n - 1, strip);
        let st = rendering(toks, n - 1, strip);
        let nx = rendering(toks, n, strip);
        let i = n - 1;
        let t = toks[i];
        let before = kept_text(toks, n - 1, strip);
        let pt = pending_text(toks, st.pending);
        assert(nx == step(toks, st, i, strip));
        if t.kind is Indent || t.kind is Dedent || t.kind is NonLogicalNewline
            || t.kind is EndOfFile || (t.kind is Comment && strip) {
            assert(kept_text(toks, n, strip) =~= before);
            assert(rendering_ok(toks, n, strip));
        } else if t.kind is Newline {
            assert(kept_text(toks, n, strip) =~= before);
            if st.prev is Some {
                lemma_visible_concat(st.out, seq!['\n']);
                lemma_visible_blank('\n');
                assert(visible(st.out) + Seq::<char>::empty() =~= visible(st.out));
            }
            assert(rendering_ok(toks, n, strip));
        } else if t.kind is Comment {
            assert(kept_text(toks, n, strip) == before + t.text);
            lemma_visible_concat(before, t.text);
            if st.prev is Some {
                assert(st.pending.len() == 0);
                assert(visible(pt) =~= Seq::<char>::empty());
                lemma_visible_concat(st.out + seq![' '] + t.text, seq!['\n']);
                lemma_visible_concat(st.out + seq![' '], t.text);
                lemma_visible_concat(st.out, seq![' ']);
                lemma_visible_blank('\n');
                lemma_visible_blank(' ');
                assert(visible(st.out) + Seq::<char>::empty() =~= visible(st.out));
                assert(visible(st.out + seq![' '] + t.text) + Seq::<char>::empty() =~= visible(
                    st.out + seq![' '] + t.text,
                ));
                assert(visible(nx.out) + visible(pending_text(toks, nx.pending)) =~= visible(
                    st.out,
                ) + visible(t.text));
                assert(rendering_ok(toks, n, strip));
            } else {
                assert(st.pending.push(i).drop_last() =~= st.pending);
                assert(nx.pending == st.pending.push(i));
                assert(pending_text(toks, nx.pending) == pt + t.text);
                lemma_visible_concat(pt, t.text);
                assert(visible(st.out) + (visible(pt) + visible(t.text)) =~= (visible(st.out)
                    + visible(pt)) + visible(t.text));
                assert(rendering_ok(toks, n, strip));
            }
        } else {
            assert(written(t.kind));
            assert(kept_text(toks, n, strip) == before + t.text);
            lemma_visible_concat(before, t.text);
            let sep = match st.prev {
                None => spaces(st.depth),
                Some(p) => if needs_space_spec(toks[p], t) {
                    seq![' ']
                } else {
                    Seq::empty()
                },
            };
            let fl = flushed(toks, st.pending, st.depth);
            assert(nx.out == st.out + fl + sep + t.text);
            assert(visible(sep) == Seq::<char>::empty()) by {
                if st.prev is None {
                    lemma_visible_spaces(st.depth);
                } else if sep.len() == 1 {
                    assert(sep =~= seq![' ']);
                    lemma_visible_blank(' ');
                } else {
                    assert(sep =~= Seq::<char>::empty());
                }
            }
            lemma_flushed_visible(toks, st.pending, st.depth);
            lemma_visible_concat(st.out + fl + sep, t.text);
            lemma_visible_concat(st.out + fl, sep);
            lemma_visible_concat(st.out, fl);
            assert(visible(pending_text(toks, nx.pending)) =~= Seq::<char>::empty());
            assert(visible(st.out + fl) + Seq::<char>::empty() =~= visible(st.out + fl));
            assert(visible(nx.out) + visible(pending_text(toks, nx.pending)) =~= visible(st.out)
                + visible(pt) + visible(t.text));
            assert(rendering_ok(toks, n, strip));
        }
    }
}

/// Rendering changes nothing but spaces and line feeds: what is left of the
/// output once they are removed is exactly what is left of the written
/// tokens' texts (every token but the layout tokens, and but the comments
/// when they are stripped), in their order.
pub proof fn law_render_changes_only_whitespace(toks: Seq<TokView>, strip: bool)
    ensures
        visible(rendered(toks, strip)) == visible(kept_text(toks, toks.len() as int, strip)),
{
    let n = toks.len() as int;
    lemma_rendering(toks, n, strip);
    let st = rendering(toks, n, strip);
    let fl = flushed(toks, st.pending, st.depth);
    lemma_trim_visible(st.out + fl);
    lemma_visible_concat(st.out, fl);
    lemma_flushed_visible(toks, st.pending, st.depth);
}

/// A rendering never ends with a line feed.
pub proof fn law_render_ends_without_line_feed(toks: Seq<TokView>, strip: bool)
    ensures
        rendered(toks, strip).len() > 0 ==> rendered(toks, strip).last() != '\n',
{
    let st = rendering(toks, toks.len() as int, strip);
    lemma_trim_visible(st.out + flushed(toks, st.pending, st.depth));
}

/// How many of the first `n` tokens are of kind `k`.
pub open spec fn kind_count(toks: Seq<TokView>, n: int, k: PyKind) -> nat {
    toks.take(n).filter(|t: TokView| t.kind == k).len()
}

/// No prefix of the first `n` tokens closes more blocks than it opens.
pub open spec fn well_nested(toks: Seq<TokView>, n: int) -> bool {
    forall|m: int|
        0 <= m <= n ==> #[trigger] kind_count(toks, m, PyKind::Dedent) <= kind_count(
            toks,
            m,
            PyKind::Indent,
        )
}

proof fn lemma_kind_count_step(toks: Seq<TokView>, n: int, k: PyKind)
    requires
        0 < n <= toks.len(),
    ensures
        kind_count(toks, n, k) == kind_count(toks, n - 1, k) + if toks[n - 1].kind == k {
            1nat
        } else {
            0nat
        },
{
    let pred = |t: TokView| t.kind == k;
    assert(toks.take(n) =~= toks.take(n - 1).push(toks[n - 1]));
    toks.take(n - 1).lemma_filter_push(toks[n - 1], pred);
}

/// The renderer's block depth after the first `n` tokens of a well-nested
/// stream is the number of `Indent`s among them less the number of
/// `Dedent`s: a `Dedent` back to the top level brings the depth to 0.
pub proof fn law_depth_counts_blocks(toks: Seq<TokView>, n: int, strip: bool)
    requires
        0 <= n <= toks.len(),
        well_nested(toks, n),
    ensures
        rendering(toks, n, strip).depth == kind_count(toks, n, PyKind::Indent) - kind_count(
            toks,
            n,
            PyKind::Dedent,
        ),
    decreases n,
{
    if n == 0 {
        assert(toks.take(0) =~= Seq::<TokView>::empty());
        reveal(Seq::filter);
    } else {
        assert(well_nested(toks, n - 1)) by {
            assert forall|m: int| 0 <= m <= n - 1 implies #[trigger] kind_count(
                toks,
                m,
                PyKind::Dedent,
            ) <= kind_count(toks, m, PyKind::Indent) by {
                assert(kind_count(toks, m, PyKind::Dedent) <= kind_count(toks, m, PyKind::Indent));
            }
        }
        law_depth_counts_blocks(toks, n - 1, strip);
        lemma_kind_count_step(toks, n, PyKind::Indent);
        lemma_kind_count_step(toks, n, PyKind::Dedent);
        assert(kind_count(toks, n, PyKind::Dedent) <= kind_count(toks, n, PyKind::Indent));
    }
}

/// A real token that starts a line of a well-nested stream is written after
/// exactly as many spaces as blocks are open before it, so a statement at
/// module level starts at column 0.
pub proof fn law_lines_start_at_their_block_depth(toks: Seq<TokView>, n: int, strip: bool)
    requires
        0 <= n < toks.len(),
        well_nested(toks, n),
        written(toks[n].kind),
        rendering(toks, n, strip).prev is None,
    ensures
        rendering(toks, n + 1, strip).out == rendering(toks, n, strip).out + flushed(
            toks,
            rendering(toks, n, strip).pending,
            rendering(toks, n, strip).depth,
        ) + spaces((kind_count(toks, n, PyKind::Indent) - kind_count(toks, n, PyKind::Dedent)) as nat)
            + toks[n].text,
{
    law_depth_counts_blocks(toks, n, strip);
}

} // verus!
