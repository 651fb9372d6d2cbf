//! Go: the paths the backend claims, the comment hazard surface, the
//! external `gofmt` check, and the formatter that composes them with the
//! engine. Minimization never joins two lines and never introduces one, so
//! Go's automatic semicolon insertion is preserved by construction; at the
//! default settings every comment survives byte for byte.
pub mod paths;
pub mod policy;
pub mod external;

use vstd::prelude::*;
use vstd::utf8::encode_utf8;
use crate::error::Error;
use crate::external::{NoToolchain, Tools};
use crate::formatter::{FormatResult, Formatter};
use crate::options::{FormatOptions, VerifyLevel};
use crate::path::extension;
use crate::tokenizer::{Tokenizer, token_count};
use crate::engine::parser::{Grammar, go_syntax, parsed, tree_of};
use crate::engine::plan::LanguageKinds;
use crate::engine::pipeline::{kind_names, kinds_are, law_kept_comments_reach_the_output, minimize_and_verify, owed_by, produced, rewritten, verified};
use crate::engine::tree::SyntaxNode;
use crate::go::policy::GoCommentPolicy;

verus! {

/// Go-specific choices.
#[derive(Clone, Copy, Debug)]
pub struct GoOptions {
    /// Drop comments. The default keeps every one of them verbatim; the
    /// comments that carry meaning to the Go toolchain survive either way.
    pub strip_comments: bool,
}

impl Default for GoOptions {
    fn default() -> (r: Self)
        ensures
            !r.strip_comments,
    {
        GoOptions { strip_comments: false }
    }
}

/// The Go grammar's comment kinds.
pub open spec fn go_comment_kinds() -> Seq<Seq<char>> {
    seq!["comment"@]
}

/// The Go grammar's protected literal kinds.
pub open spec fn go_protected_kinds() -> Seq<Seq<char>> {
    seq!["interpreted_string_literal"@, "raw_string_literal"@, "rune_literal"@]
}

/// The Go grammar as the engine sees it: one comment kind, the three
/// literal kinds whose bytes carry meaning, and line structure preserved.
pub fn go_kinds() -> (k: LanguageKinds)
    ensures
        kinds_are(k, go_comment_kinds(), go_protected_kinds(), true),
{
    let k = LanguageKinds {
        comment_kinds: vec!["comment"],
        protected_kinds: vec!["interpreted_string_literal", "raw_string_literal", "rune_literal"],
        newline_sensitive: true,
    };
    assert(kind_names(k.comment_kinds@) =~= go_comment_kinds());
    assert(kind_names(k.protected_kinds@) =~= go_protected_kinds());
    k
}

/// The Go formatter. `T` is the seam to the external toolchain the
/// `External` level runs.
pub struct GoFormatter<T: Tools> {
    options: GoOptions,
    tools: T,
}

impl GoFormatter<NoToolchain> {
    /// A formatter with these options and no external toolchain.
    pub fn new(options: GoOptions) -> (f: Self)
        ensures
            f.strips() == options.strip_comments,
    {
        GoFormatter { options, tools: NoToolchain }
    }
}

impl<T: Tools> GoFormatter<T> {
    /// A formatter with these options whose external level runs `tools`.
    pub fn with_tools(options: GoOptions, tools: T) -> (f: Self)
        ensures
            f.strips() == options.strip_comments,
            f.toolchain() == tools,
    {
        GoFormatter { options, tools }
    }

    /// The toolchain the external level runs.
    pub closed spec fn toolchain(&self) -> T {
        self.tools
    }

    /// Whether this formatter strips comments.
    pub closed spec fn strips(&self) -> bool {
        self.options.strip_comments
    }
}

impl Default for GoFormatter<NoToolchain> {
    fn default() -> (f: Self)
        ensures
            !f.strips(),
    {
        GoFormatter::new(GoOptions { strip_comments: false })
    }
}

impl<T: Tools> Formatter for GoFormatter<T> {
    fn language(&self) -> (r: &'static str)
        ensures
            r@ == "go"@,
    {
        "go"
    }

    fn supports(&self, path: &str) -> (r: bool)
        ensures
            r == (extension(path@) == Some("go"@)),
    {
        crate::go::paths::supports_path(path)
    }

    /// `path` is not read: the grammar has no dialect or version selector.
    fn format(&self, path: &str, source: &str, options: &FormatOptions) -> (r: Result<
        FormatResult,
        Error,
    >)
        ensures
            r matches Ok(res) ==> produced(
                Grammar::Go,
                options.verify,
                encode_utf8(source@),
                go_comment_kinds(),
                go_protected_kinds(),
                true,
                GoCommentPolicy { strip_comments: self.strips() },
                res.code@,
            ) && res.original_tokens == token_count(options.tokenizer, source@)
                && res.formatted_tokens == token_count(options.tokenizer, res.code@),
            options.verify != VerifyLevel::External && owed_by(
                Grammar::Go,
                options.verify,
                encode_utf8(source@),
                go_comment_kinds(),
                go_protected_kinds(),
                true,
                GoCommentPolicy { strip_comments: self.strips() },
            ) ==> r is Ok,
            options.verify == VerifyLevel::External ==> (r matches Ok(res) ==> crate::go::external::gofmt_passes(
                self.toolchain(),
                source@,
                res.code@,
            )),
            r matches Err(e) ==> e is Parse || e is Verification || e is Io,
    {
        let policy = GoCommentPolicy { strip_comments: self.options.strip_comments };
        let kinds = go_kinds();
        proof {
            assert(kinds_are(kinds, go_comment_kinds(), go_protected_kinds(), true));
        }
        let code = match minimize_and_verify(Grammar::Go, &kinds, &policy, source, options.verify) {
            Ok(c) => c,
            Err(e) => return Err(e),
        };
        if options.verify == VerifyLevel::External {
            match crate::go::external::check(&self.tools, source, code.as_str()) {
                Ok(()) => {},
                Err(e) => return Err(e),
            }
        }
        let tokenizer = options.tokenizer.load();
        let original_tokens = tokenizer.count(source);
        let formatted_tokens = tokenizer.count(code.as_str());
        let r: Result<FormatResult, Error> = Ok(FormatResult { code, original_tokens, formatted_tokens });
        proof {
            let res = r->Ok_0;
            let src = encode_utf8(source@);
            let (t, t2) = choose|t: Seq<SyntaxNode>, t2: Seq<SyntaxNode>|
                #[trigger] rewritten(t, src, kinds, policy, res.code@) && #[trigger] verified(
                    options.verify,
                    t,
                    src,
                    t2,
                    encode_utf8(res.code@),
                    kinds,
                ) && tree_of(t, parsed(Grammar::Go, src), src.len()) && tree_of(
                    t2,
                    parsed(Grammar::Go, encode_utf8(res.code@)),
                    encode_utf8(res.code@).len(),
                );
            assert(kinds_are(kinds, go_comment_kinds(), go_protected_kinds(), true));
            assert(policy == GoCommentPolicy { strip_comments: self.strips() });
            assert(produced(
                Grammar::Go,
                options.verify,
                src,
                go_comment_kinds(),
                go_protected_kinds(),
                true,
                policy,
                res.code@,
            ));
        }
        r
    }
}

/// With comments kept, every comment of tree-sitter-go's parse of the
/// source appears in the formatted output byte for byte.
pub proof fn law_go_comments_survive(level: VerifyLevel, source: Seq<u8>, code: Seq<char>, i: int) -> (w: (
    Seq<u8>,
    Seq<u8>,
))
    requires
        produced(
            Grammar::Go,
            level,
            source,
            go_comment_kinds(),
            go_protected_kinds(),
            true,
            GoCommentPolicy { strip_comments: false },
            code,
        ),
        go_syntax(source) matches Some(recs) && 0 <= i < recs.len() && recs[i].0 == "comment"@,
    ensures
        encode_utf8(code) == w.0 + source.subrange(
            go_syntax(source)->0[i].1 as int,
            go_syntax(source)->0[i].2 as int,
        ) + w.1,
{
    assert(go_comment_kinds()[0] == "comment"@);
    law_kept_comments_reach_the_output(
        Grammar::Go,
        level,
        source,
        go_comment_kinds(),
        go_protected_kinds(),
        true,
        GoCommentPolicy { strip_comments: false },
        code,
        i,
    )
}

} // verus!
