//! C#: the paths the backend claims, the comment hazard surface, the
//! external `csc` check, and the formatter that composes them with the
//! engine. Line structure is preserved because a `//` comment ends at the
//! newline after it and a preprocessor directive must begin its line; at the
//! default settings every comment, XML documentation included, survives byte
//! for byte.
pub mod paths;
pub mod policy;
pub mod external;


use vstd::prelude::*;
use vstd::utf8::encode_utf8;
use crate::error::Error;
use crate::formatter::{FormatResult, Formatter};
use crate::options::{FormatOptions, VerifyLevel};
use crate::path::extension;
use crate::tokenizer::{Tokenizer, token_count};
use crate::engine::parser::{Grammar, parsed, tree_of};
use crate::engine::plan::LanguageKinds;
use crate::engine::pipeline::{kind_names, kinds_are, minimize_and_verify, owed_by, produced, rewritten, verified};
use crate::engine::tree::SyntaxNode;
use crate::csharp::policy::CSharpCommentPolicy;
use crate::csharp::external::{CscTools, NoCompiler, csc_passes};

verus! {

/// C#-specific choices.
#[derive(Clone, Copy, Debug)]
pub struct CSharpOptions {
    /// Drop comments, XML documentation included. The default keeps every
    /// one of them verbatim.
    pub strip_comments: bool,
}

impl Default for CSharpOptions {
    fn default() -> (r: Self)
        ensures
            !r.strip_comments,
    {
        CSharpOptions { strip_comments: false }
    }
}

/// The C# grammar's comment kinds.
pub open spec fn csharp_comment_kinds() -> Seq<Seq<char>> {
    seq!["comment"@]
}

/// The C# grammar's protected literal kinds.
pub open spec fn csharp_protected_kinds() -> Seq<Seq<char>> {
    seq![
        "string_literal"@,
        "verbatim_string_literal"@,
        "raw_string_literal"@,
        "interpolated_string_expression"@,
        "character_literal"@,
    ]
}

/// The C# grammar as the engine sees it: one comment kind for `//`, `/* */`
/// and `///` alike, the five literal kinds whose bytes carry meaning, and
/// line structure preserved.
pub fn csharp_kinds() -> (k: LanguageKinds)
    ensures
        kinds_are(k, csharp_comment_kinds(), csharp_protected_kinds(), true),
{
    let k = LanguageKinds {
        comment_kinds: vec!["comment"],
        protected_kinds: vec![
            "string_literal",
            "verbatim_string_literal",
            "raw_string_literal",
            "interpolated_string_expression",
            "character_literal",
        ],
        newline_sensitive: true,
    };
    assert(kind_names(k.comment_kinds@) =~= csharp_comment_kinds());
    assert(kind_names(k.protected_kinds@) =~= csharp_protected_kinds());
    k
}

/// The C# formatter. `T` is the seam to the compiler the `External` level
/// runs.
pub struct CSharpFormatter<T: CscTools> {
    options: CSharpOptions,
    tools: T,
}

impl CSharpFormatter<NoCompiler> {
    /// A formatter with these options and no compiler.
    pub fn new(options: CSharpOptions) -> (f: Self)
        ensures
            f.strips() == options.strip_comments,
    {
        CSharpFormatter { options, tools: NoCompiler }
    }
}

impl<T: CscTools> CSharpFormatter<T> {
    /// A formatter with these options whose external level runs `tools`.
    pub fn with_tools(options: CSharpOptions, tools: T) -> (f: Self)
        ensures
            f.strips() == options.strip_comments,
            f.toolchain() == tools,
    {
        CSharpFormatter { options, tools }
    }

    /// Whether this formatter strips comments.
    pub closed spec fn strips(&self) -> bool {
        self.options.strip_comments
    }

    /// The compiler seam the external level runs.
    pub closed spec fn toolchain(&self) -> T {
        self.tools
    }
}

impl Default for CSharpFormatter<NoCompiler> {
    fn default() -> (f: Self)
        ensures
            !f.strips(),
    {
        CSharpFormatter::new(CSharpOptions { strip_comments: false })
    }
}

impl<T: CscTools> Formatter for CSharpFormatter<T> {
    fn language(&self) -> (r: &'static str)
        ensures
            r@ == "csharp"@,
    {
        "csharp"
    }

    fn supports(&self, path: &str) -> (r: bool)
        ensures
            r == (extension(path@) == Some("cs"@)),
    {
        crate::csharp::paths::supports_path(path)
    }

    /// `path` is not read: the grammar has no dialect or version selector.
    /// The external level runs `csc`'s diagnostic comparison on top of the
    /// built-in equivalence check.
    fn format(&self, path: &str, source: &str, options: &FormatOptions) -> (r: Result<
        FormatResult,
        Error,
    >)
        ensures
            r matches Ok(res) ==> produced(
                Grammar::CSharp,
                options.verify,
                encode_utf8(source@),
                csharp_comment_kinds(),
                csharp_protected_kinds(),
                true,
                CSharpCommentPolicy { strip_comments: self.strips() },
                res.code@,
            ) && res.original_tokens == token_count(options.tokenizer, source@)
                && res.formatted_tokens == token_count(options.tokenizer, res.code@),
            options.verify == VerifyLevel::External ==> (r matches Ok(res) ==> csc_passes(
                self.toolchain(),
                source@,
                res.code@,
            )),
            options.verify != VerifyLevel::External && owed_by(
                Grammar::CSharp,
                options.verify,
                encode_utf8(source@),
                csharp_comment_kinds(),
                csharp_protected_kinds(),
                true,
                CSharpCommentPolicy { strip_comments: self.strips() },
            ) ==> r is Ok,
            r matches Err(e) ==> e is Parse || e is Verification || e is Io,
    {
        let policy = CSharpCommentPolicy { strip_comments: self.options.strip_comments };
        let kinds = csharp_kinds();
        proof {
            assert(kinds_are(kinds, csharp_comment_kinds(), csharp_protected_kinds(), true));
        }
        let code = match minimize_and_verify(Grammar::CSharp, &kinds, &policy, source, options.verify) {
            Ok(c) => c,
            Err(e) => return Err(e),
        };
        if options.verify == VerifyLevel::External {
            match crate::csharp::external::check(&self.tools, source, code.as_str()) {
                Ok(()) => {},
                Err(e) => return Err(e),
            }
        }
        let tokenizer = options.tokenizer.load();
        let original_tokens = tokenizer.count(source);
        let formatted_tokens = tokenizer.count(code.as_str());
        let r: Result<FormatResult, Error> = Ok(FormatResult { code, original_tokens, formatted_tokens });
        proof {
            let res = r->Ok_0;
            let src = encode_utf8(source@);
            let (t, t2) = choose|t: Seq<SyntaxNode>, t2: Seq<SyntaxNode>|
                #[trigger] rewritten(t, src, kinds, policy, res.code@) && #[trigger] verified(
                    options.verify,
                    t,
                    src,
                    t2,
                    encode_utf8(res.code@),
                    kinds,
                ) && tree_of(t, parsed(Grammar::CSharp, src), src.len()) && tree_of(
                    t2,
                    parsed(Grammar::CSharp, encode_utf8(res.code@)),
                    encode_utf8(res.code@).len(),
                );
            assert(kinds_are(kinds, csharp_comment_kinds(), csharp_protected_kinds(), true));
            assert(policy == CSharpCommentPolicy { strip_comments: self.strips() });
            assert(produced(
                Grammar::CSharp,
                options.verify,
                src,
                csharp_comment_kinds(),
                csharp_protected_kinds(),
                true,
                policy,
                res.code@,
            ));
        }
        r
    }
}

} // verus!
