//! Python: the token stream goes through the transform passes the options
//! ask for, is re-rendered with minimal whitespace, and the output is
//! re-lexed and re-parsed and accepted only when its token stream matches
//! the one rendered (and, when no pass changed anything, its syntax tree
//! matches the input's). Lexing, parsing and walking the syntax tree are the
//! job of the parser the program links; everything decided on their results
//! is here.
pub mod emit;
pub mod passes;
pub mod verify;

use vstd::prelude::*;
use crate::error::Error;
use crate::formatter::FormatResult;
use crate::options::FormatOptions;
use crate::path::extension;
use crate::tokenizer::{Tokenizer, token_count};
use self::emit::{PyKind, PyTok, TokView, render, rendered, views_of};
use self::passes::{
    law_unmerged_keeps_logical_tokens,
    logical,
    Span,
    annotations_stripped,
    docstrings_stripped,
    first_from,
    merge_imports,
    merged,
    strip_annotations,
    strip_docstrings,
};
use self::verify::{Reparsed, output_verdict, reparsed_view, verdict};

verus! {

/// Python-specific choices.
#[derive(Clone, Copy, Debug)]
pub struct PythonOptions {
    /// Drop `#` comments; `false` keeps them, each ending its line.
    pub strip_comments: bool,
    /// Drop docstrings, the leading string literal of a module, class or
    /// function body. Empties `__doc__`.
    pub strip_docstrings: bool,
    /// Drop type annotations. Changes `__annotations__`.
    pub strip_annotations: bool,
    /// Merge adjacent `import` statements of the same flavor.
    pub merge_imports: bool,
}

impl Default for PythonOptions {
    fn default() -> (r: Self)
        ensures
            r.strip_comments,
            !r.strip_docstrings,
            !r.strip_annotations,
            r.merge_imports,
    {
        PythonOptions {
            strip_comments: true,
            strip_docstrings: false,
            strip_annotations: false,
            merge_imports: true,
        }
    }
}

/// What the syntax tree says the passes may cut: docstrings to delete or to
/// replace by `pass`, and annotation spans to delete, return annotations,
/// and bare annotated names to replace by `pass`. The program's walk over
/// the tree reports each body, annotated assignment, parameter and return
/// annotation here, and the decisions are made here.
#[derive(Clone, Debug)]
pub struct Spans {
    pub docstring_deletes: Vec<Span>,
    pub docstring_replaced: Vec<Span>,
    pub annotation_deletes: Vec<Span>,
    pub annotation_returns: Vec<Span>,
    pub annotation_replaced: Vec<Span>,
}

impl Spans {
    /// Nothing to cut.
    pub fn new() -> (r: Self)
        ensures
            r.docstring_deletes@.len() == 0,
            r.docstring_replaced@.len() == 0,
            r.annotation_deletes@.len() == 0,
            r.annotation_returns@.len() == 0,
            r.annotation_replaced@.len() == 0,
    {
        Spans {
            docstring_deletes: Vec::new(),
            docstring_replaced: Vec::new(),
            annotation_deletes: Vec::new(),
            annotation_returns: Vec::new(),
            annotation_replaced: Vec::new(),
        }
    }

    /// Records the docstring of a body, if it has one: `docstring` is the
    /// span of its first statement when that statement is a string literal
    /// (an implicit concatenation counts; f-strings and byte strings do
    /// not). The sole statement of a class or function body (`needs_pass`)
    /// is replaced by `pass`; any other docstring, and the module's, is
    /// deleted.
    pub fn add_body(&mut self, docstring: Option<Span>, body_len: usize, needs_pass: bool)
        ensures
            match docstring {
                Some(s) => if needs_pass && body_len == 1 {
                    final(self).docstring_replaced@ == old(self).docstring_replaced@.push(s)
                        && final(self).docstring_deletes@ == old(self).docstring_deletes@
                } else {
                    final(self).docstring_deletes@ == old(self).docstring_deletes@.push(s)
                        && final(self).docstring_replaced@ == old(self).docstring_replaced@
                },
                None => final(self).docstring_deletes@ == old(self).docstring_deletes@
                    && final(self).docstring_replaced@ == old(self).docstring_replaced@,
            },
            final(self).annotation_deletes@ == old(self).annotation_deletes@,
            final(self).annotation_returns@ == old(self).annotation_returns@,
            final(self).annotation_replaced@ == old(self).annotation_replaced@,
    {
        if let Some(s) = docstring {
            if needs_pass && body_len == 1 {
                self.docstring_replaced.push(s);
            } else {
                self.docstring_deletes.push(s);
            }
        }
    }

    /// Records an annotated assignment `target: annotation [= value]`: with
    /// a value, `: annotation` is deleted; without one the statement is
    /// replaced by `pass`.
    pub fn add_annotated_assignment(
        &mut self,
        target_end: usize,
        annotation_end: usize,
        has_value: bool,
        statement: Span,
    )
        ensures
            if has_value {
                final(self).annotation_deletes@ == old(self).annotation_deletes@.push(
                    Span { start: target_end, end: annotation_end },
                ) && final(self).annotation_replaced@ == old(self).annotation_replaced@
            } else {
                final(self).annotation_replaced@ == old(self).annotation_replaced@.push(statement)
                    && final(self).annotation_deletes@ == old(self).annotation_deletes@
            },
            final(self).annotation_returns@ == old(self).annotation_returns@,
            final(self).docstring_deletes@ == old(self).docstring_deletes@,
            final(self).docstring_replaced@ == old(self).docstring_replaced@,
    {
        if has_value {
            self.annotation_deletes.push(Span { start: target_end, end: annotation_end });
        } else {
            self.annotation_replaced.push(statement);
        }
    }

    /// Records a parameter: an annotated one loses `: annotation`.
    pub fn add_parameter(&mut self, name_end: usize, annotation_end: Option<usize>)
        ensures
            match annotation_end {
                Some(e) => final(self).annotation_deletes@ == old(self).annotation_deletes@.push(
                    Span { start: name_end, end: e },
                ),
                None => final(self).annotation_deletes@ == old(self).annotation_deletes@,
            },
            final(self).annotation_returns@ == old(self).annotation_returns@,
            final(self).annotation_replaced@ == old(self).annotation_replaced@,
            final(self).docstring_deletes@ == old(self).docstring_deletes@,
            final(self).docstring_replaced@ == old(self).docstring_replaced@,
    {
        if let Some(e) = annotation_end {
            self.annotation_deletes.push(Span { start: name_end, end: e });
        }
    }

    /// Records a return annotation; it goes together with its `->`.
    pub fn add_return(&mut self, annotation: Span)
        ensures
            final(self).annotation_returns@ == old(self).annotation_returns@.push(annotation),
            final(self).annotation_deletes@ == old(self).annotation_deletes@,
            final(self).annotation_replaced@ == old(self).annotation_replaced@,
            final(self).docstring_deletes@ == old(self).docstring_deletes@,
            final(self).docstring_replaced@ == old(self).docstring_replaced@,
    {
        self.annotation_returns.push(annotation);
    }
}

/// Whether every return annotation starts at or before some token: true of
/// every annotation the parser reports for the stream it lexed.
pub open spec fn returns_located(toks: Seq<TokView>, spans: Spans) -> bool {
    forall|k: int|
        0 <= k < spans.annotation_returns@.len() ==> first_from(
            toks,
            #[trigger] spans.annotation_returns@[k].start,
            0,
        ) is Some
}

/// Whether every return annotation of `spans` starts at or before some
/// token of `tokens` that is not a blank line.
pub fn returns_are_located(tokens: &[PyTok], spans: &Spans) -> (r: bool)
    ensures
        r == returns_located(views_of(tokens@), *spans),
{
    let ghost toks = views_of(tokens@);
    let rs = &spans.annotation_returns;
    let mut k: usize = 0;
    while k < rs.len()
        invariant
            toks == views_of(tokens@),
            rs@ == spans.annotation_returns@,
            k <= rs@.len(),
            forall|q: int| 0 <= q < k ==> first_from(toks, #[trigger] rs@[q].start, 0) is Some,
        decreases rs@.len() - k,
    {
        let pos = rs[k].start;
        let mut j: usize = 0;
        let mut found = false;
        while j < tokens.len()
            invariant
                toks == views_of(tokens@),
                j <= toks.len(),
                !found ==> first_from(toks, pos, 0) == first_from(toks, pos, j as int),
                found ==> first_from(toks, pos, 0) is Some,
            decreases toks.len() - j,
        {
            assert(toks[j as int] == tokens@[j as int]@);
            if !found && tokens[j].start >= pos && tokens[j].kind != PyKind::NonLogicalNewline {
                found = true;
            }
            j = j + 1;
        }
        if !found {
            assert(first_from(toks, pos, j as int) is None);
            return false;
        }
        k = k + 1;
    }
    true
}

/// The passes the options ask for, in order: annotations, docstrings, then
/// import merging; with whether any of them changed the stream.
pub open spec fn prepared(options: PythonOptions, toks: Seq<TokView>, spans: Spans) -> (
    Seq<TokView>,
    bool,
) {
    let a = if options.strip_annotations {
        annotations_stripped(
            toks,
            spans.annotation_deletes@,
            spans.annotation_returns@,
            spans.annotation_replaced@,
        )
    } else {
        (toks, false)
    };
    let d = if options.strip_docstrings {
        docstrings_stripped(a.0, spans.docstring_deletes@, spans.docstring_replaced@)
    } else {
        (a.0, false)
    };
    let m = if options.merge_imports {
        merged(d.0)
    } else {
        (d.0, false)
    };
    (m.0, a.1 || d.1 || m.1)
}

/// A prepared stream reported unmodified is the source's stream: every
/// logical token comes out exactly as it went in. So a pass that changed
/// what the tokens say always shows in the flag, and the output is then
/// checked against its own tokens rather than against the source's tree.
pub proof fn law_unflagged_streams_are_unchanged(
    options: PythonOptions,
    toks: Seq<TokView>,
    spans: Spans,
)
    ensures
        !prepared(options, toks, spans).1 ==> logical(prepared(options, toks, spans).0) == logical(
            toks,
        ),
{
    let a = if options.strip_annotations {
        annotations_stripped(
            toks,
            spans.annotation_deletes@,
            spans.annotation_returns@,
            spans.annotation_replaced@,
        )
    } else {
        (toks, false)
    };
    let d = if options.strip_docstrings {
        docstrings_stripped(a.0, spans.docstring_deletes@, spans.docstring_replaced@)
    } else {
        (a.0, false)
    };
    if !prepared(options, toks, spans).1 {
        assert(a.0 == toks);
        assert(d.0 == a.0);
        if options.merge_imports {
            law_unmerged_keeps_logical_tokens(d.0);
        }
    }
}

/// The Python backend.
#[derive(Clone, Copy, Debug)]
pub struct PythonFormatter {
    pub options: PythonOptions,
}

/// Whether `path` is a Python file: its extension is exactly `py`.
pub fn supports_path(path: &str) -> (r: bool)
    ensures
        r == (extension(path@) == Some("py"@)),
{
    crate::path::has_extension(path, "py")
}

impl Default for PythonFormatter {
    fn default() -> (r: Self)
        ensures
            r.options.strip_comments,
            !r.options.strip_docstrings,
            !r.options.strip_annotations,
            r.options.merge_imports,
    {
        PythonFormatter { options: PythonOptions::default() }
    }
}

impl PythonFormatter {
    pub fn new(options: PythonOptions) -> (r: Self)
        ensures
            r.options == options,
    {
        PythonFormatter { options }
    }

    /// The configuration key of this backend.
    pub fn language(&self) -> (r: &'static str)
        ensures
            r@ == "python"@,
    {
        "python"
    }

    /// Whether this backend formats `path`.
    pub fn supports(&self, path: &str) -> (r: bool)
        ensures
            r == (extension(path@) == Some("py"@)),
    {
        supports_path(path)
    }

    /// Runs the passes the options ask for over a lexed source, given what
    /// the syntax tree says they may cut.
    pub fn prepare(&self, tokens: &[PyTok], spans: &Spans) -> (r: (Vec<PyTok>, bool))
        requires
            self.options.strip_annotations ==> returns_located(views_of(tokens@), *spans),
        ensures
            (views_of(r.0@), r.1) == prepared(self.options, views_of(tokens@), *spans),
            !r.1 ==> logical(views_of(r.0@)) == logical(views_of(tokens@)),
    {
        proof {
            law_unflagged_streams_are_unchanged(self.options, views_of(tokens@), *spans);
        }
        let (a, ma) = if self.options.strip_annotations {
            strip_annotations(
                tokens,
                spans.annotation_deletes.as_slice(),
                spans.annotation_returns.as_slice(),
                spans.annotation_replaced.as_slice(),
            )
        } else {
            (passes::copy_all(tokens), false)
        };
        let (d, md) = if self.options.strip_docstrings {
            strip_docstrings(
                a.as_slice(),
                spans.docstring_deletes.as_slice(),
                spans.docstring_replaced.as_slice(),
            )
        } else {
            (a, false)
        };
        let (m, mm) = if self.options.merge_imports {
            merge_imports(d.as_slice())
        } else {
            (d, false)
        };
        (m, ma || md || mm)
    }

    /// The re-rendered text of a token stream.
    pub fn render(&self, tokens: &[PyTok]) -> (r: String)
        ensures
            r@ == rendered(views_of(tokens@), self.options.strip_comments),
    {
        render(tokens, self.options.strip_comments)
    }

    /// Accepts or rejects the rendering `code` of `source`, given the
    /// tokens it was rendered from, whether a pass changed them, and what
    /// parsing `code` gave; and counts the tokens of both when it is
    /// accepted.
    pub fn conclude(
        &self,
        source: &str,
        rendered_tokens: &[PyTok],
        modified: bool,
        code: String,
        reparsed: Result<Reparsed, String>,
        options: &FormatOptions,
    ) -> (r: Result<FormatResult, Error>)
        ensures
            match output_verdict(
                options.verify,
                views_of(rendered_tokens@),
                modified,
                reparsed_view(reparsed),
                self.options.strip_comments,
            ) {
                Ok(()) => r matches Ok(res) && res.code@ == code@ && res.original_tokens
                    == token_count(options.tokenizer, source@) && res.formatted_tokens
                    == token_count(options.tokenizer, code@),
                Err(m) => r matches Err(e) && e matches Error::Verification(s) && s@ == m,
            },
    {
        match verdict(
            options.verify,
            rendered_tokens,
            modified,
            reparsed,
            self.options.strip_comments,
        ) {
            Err(e) => Err(e),
            Ok(()) => {
                let tokenizer = options.tokenizer.load();
                let original_tokens = tokenizer.count(source);
                let formatted_tokens = tokenizer.count(code.as_str());
                Ok(FormatResult { code, original_tokens, formatted_tokens })
            },
        }
    }
}

} // verus!
