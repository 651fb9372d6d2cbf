//! Java: the paths the backend claims, the comment hazard surface, the
//! external `javac` check, and the formatter that composes them with the
//! engine. Line structure is preserved because a `//` comment ends at the
//! newline after it; at the default settings every comment, Javadoc
//! included, survives byte for byte.
pub mod paths;
pub mod policy;
pub mod external;

use vstd::prelude::*;
use vstd::utf8::encode_utf8;
use crate::error::Error;
use crate::external::{NoToolchain, Tools};
use crate::formatter::{FormatResult, Formatter};
use crate::options::{FormatOptions, VerifyLevel};
use crate::path::extension;
use crate::tokenizer::{Tokenizer, token_count};
use crate::engine::parser::{Grammar, parsed, tree_of};
use crate::engine::plan::LanguageKinds;
use crate::engine::pipeline::{kind_names, kinds_are, minimize_and_verify, owed_by, produced, rewritten, verified};
use crate::engine::tree::SyntaxNode;
use crate::java::policy::JavaCommentPolicy;

verus! {

/// Java-specific choices.
#[derive(Clone, Copy, Debug)]
pub struct JavaOptions {
    /// Drop comments, Javadoc included. The default keeps every one of them
    /// verbatim.
    pub strip_comments: bool,
}

impl Default for JavaOptions {
    fn default() -> (r: Self)
        ensures
            !r.strip_comments,
    {
        JavaOptions { strip_comments: false }
    }
}

/// The Java grammar's comment kinds.
pub open spec fn java_comment_kinds() -> Seq<Seq<char>> {
    seq!["line_comment"@, "block_comment"@]
}

/// The Java grammar's protected literal kinds.
pub open spec fn java_protected_kinds() -> Seq<Seq<char>> {
    seq!["string_literal"@, "character_literal"@]
}

/// The Java grammar as the engine sees it: two comment kinds, the two
/// literal kinds whose bytes carry meaning (a text block is a
/// `string_literal`), and line structure preserved.
pub fn java_kinds() -> (k: LanguageKinds)
    ensures
        kinds_are(k, java_comment_kinds(), java_protected_kinds(), true),
{
    let k = LanguageKinds {
        comment_kinds: vec!["line_comment", "block_comment"],
        protected_kinds: vec!["string_literal", "character_literal"],
        newline_sensitive: true,
    };
    assert(kind_names(k.comment_kinds@) =~= java_comment_kinds());
    assert(kind_names(k.protected_kinds@) =~= java_protected_kinds());
    k
}

/// The Java formatter. `T` is the seam to the external toolchain the
/// `External` level runs.
pub struct JavaFormatter<T: Tools> {
    options: JavaOptions,
    tools: T,
}

impl JavaFormatter<NoToolchain> {
    /// A formatter with these options and no external toolchain.
    pub fn new(options: JavaOptions) -> (f: Self)
        ensures
            f.strips() == options.strip_comments,
    {
        JavaFormatter { options, tools: NoToolchain }
    }
}

impl<T: Tools> JavaFormatter<T> {
    /// A formatter with these options whose external level runs `tools`.
    pub fn with_tools(options: JavaOptions, tools: T) -> (f: Self)
        ensures
            f.strips() == options.strip_comments,
            f.toolchain() == tools,
    {
        JavaFormatter { options, tools }
    }

    /// The toolchain the external level runs.
    pub closed spec fn toolchain(&self) -> T {
        self.tools
    }

    /// Whether this formatter strips comments.
    pub closed spec fn strips(&self) -> bool {
        self.options.strip_comments
    }
}

impl Default for JavaFormatter<NoToolchain> {
    fn default() -> (f: Self)
        ensures
            !f.strips(),
    {
        JavaFormatter::new(JavaOptions { strip_comments: false })
    }
}

impl<T: Tools> Formatter for JavaFormatter<T> {
    fn language(&self) -> (r: &'static str)
        ensures
            r@ == "java"@,
    {
        "java"
    }

    fn supports(&self, path: &str) -> (r: bool)
        ensures
            r == (extension(path@) == Some("java"@)),
    {
        crate::java::paths::supports_path(path)
    }

    /// `path` is not read: the grammar has no dialect or version selector.
    fn format(&self, path: &str, source: &str, options: &FormatOptions) -> (r: Result<
        FormatResult,
        Error,
    >)
        ensures
            r matches Ok(res) ==> produced(
                Grammar::Java,
                options.verify,
                encode_utf8(source@),
                java_comment_kinds(),
                java_protected_kinds(),
                true,
                JavaCommentPolicy { strip_comments: self.strips() },
                res.code@,
            ) && res.original_tokens == token_count(options.tokenizer, source@)
                && res.formatted_tokens == token_count(options.tokenizer, res.code@),
            options.verify != VerifyLevel::External && owed_by(
                Grammar::Java,
                options.verify,
                encode_utf8(source@),
                java_comment_kinds(),
                java_protected_kinds(),
                true,
                JavaCommentPolicy { strip_comments: self.strips() },
            ) ==> r is Ok,
            options.verify == VerifyLevel::External ==> (r matches Ok(res) ==> crate::java::external::javac_passes(
                self.toolchain(),
                source@,
                res.code@,
            )),
            r matches Err(e) ==> e is Parse || e is Verification || e is Io,
    {
        let policy = JavaCommentPolicy { strip_comments: self.options.strip_comments };
        let kinds = java_kinds();
        proof {
            assert(kinds_are(kinds, java_comment_kinds(), java_protected_kinds(), true));
        }
        let code = match minimize_and_verify(Grammar::Java, &kinds, &policy, source, options.verify) {
            Ok(c) => c,
            Err(e) => return Err(e),
        };
        if options.verify == VerifyLevel::External {
            match crate::java::external::check(&self.tools, source, code.as_str()) {
                Ok(()) => {},
                Err(e) => return Err(e),
            }
        }
        let tokenizer = options.tokenizer.load();
        let original_tokens = tokenizer.count(source);
        let formatted_tokens = tokenizer.count(code.as_str());
        let r: Result<FormatResult, Error> = Ok(FormatResult { code, original_tokens, formatted_tokens });
        proof {
            let res = r->Ok_0;
            let src = encode_utf8(source@);
            let (t, t2) = choose|t: Seq<SyntaxNode>, t2: Seq<SyntaxNode>|
                #[trigger] rewritten(t, src, kinds, policy, res.code@) && #[trigger] verified(
                    options.verify,
                    t,
                    src,
                    t2,
                    encode_utf8(res.code@),
                    kinds,
                ) && tree_of(t, parsed(Grammar::Java, src), src.len()) && tree_of(
                    t2,
                    parsed(Grammar::Java, encode_utf8(res.code@)),
                    encode_utf8(res.code@).len(),
                );
            assert(kinds_are(kinds, java_comment_kinds(), java_protected_kinds(), true));
            assert(policy == JavaCommentPolicy { strip_comments: self.strips() });
            assert(produced(
                Grammar::Java,
                options.verify,
                src,
                java_comment_kinds(),
                java_protected_kinds(),
                true,
                policy,
                res.code@,
            ));
        }
        r
    }
}

} // verus!
