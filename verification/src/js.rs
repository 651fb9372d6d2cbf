//! JavaScript and TypeScript: the dialects the backend claims, parsing and
//! re-emission with oxc, verification, and the external `tsc`/`node` check.
//! Output is minified by oxc's code generator; only the comments it prints
//! survive, and the canonical form compared for equivalence has none.
pub mod external;
pub mod parser;
pub mod emit;
pub mod verify;

use vstd::prelude::*;
use crate::error::Error;
use crate::external::{NoToolchain, Tools};
use crate::formatter::{FormatResult, Formatter};
use crate::options::{FormatOptions, VerifyLevel};
use crate::tokenizer::{Tokenizer, token_count};
use crate::js::external::path_dialect;
use crate::js::parser::{clean, oxc_codegen, oxc_parse};

verus! {

/// What the backend makes of `source` at `path`: the program minified,
/// its comments stripped when asked.
pub open spec fn js_code(path: Seq<char>, source: Seq<char>, strip: bool) -> Seq<char> {
    oxc_codegen(path, source, strip)
}

/// Whether the built-in check of `level` passes: the source and the output
/// both parse cleanly, and from the equivalence level up the output's
/// canonical form is the source's.
pub open spec fn js_passes(path: Seq<char>, source: Seq<char>, strip: bool, level: VerifyLevel) -> bool {
    let code = js_code(path, source, strip);
    &&& clean(oxc_parse(path, source))
    &&& clean(oxc_parse(path, code))
    &&& (level == VerifyLevel::Reparse || oxc_codegen(path, source, true) == oxc_codegen(
        path,
        code,
        true,
    ))
}

/// JavaScript/TypeScript-specific choices.
#[derive(Clone, Copy, Debug)]
pub struct JsOptions {
    /// Drop comments entirely. The default keeps the ones oxc prints.
    pub strip_comments: bool,
}

impl Default for JsOptions {
    fn default() -> (r: Self)
        ensures
            !r.strip_comments,
    {
        JsOptions { strip_comments: false }
    }
}

/// The JavaScript/TypeScript formatter. `T` is the seam to the external
/// toolchain the `External` level runs.
pub struct JsFormatter<T: Tools> {
    options: JsOptions,
    tools: T,
}

impl JsFormatter<NoToolchain> {
    /// A formatter with these options and no external toolchain.
    pub fn new(options: JsOptions) -> (f: Self)
        ensures
            f.strips() == options.strip_comments,
    {
        JsFormatter { options, tools: NoToolchain }
    }
}

impl<T: Tools> JsFormatter<T> {
    /// A formatter with these options whose external level runs `tools`.
    pub fn with_tools(options: JsOptions, tools: T) -> (f: Self)
        ensures
            f.strips() == options.strip_comments,
            f.toolchain() == tools,
    {
        JsFormatter { options, tools }
    }

    /// The toolchain the external level runs.
    pub closed spec fn toolchain(&self) -> T {
        self.tools
    }

    /// Whether this formatter strips comments.
    pub closed spec fn strips(&self) -> bool {
        self.options.strip_comments
    }
}

impl Default for JsFormatter<NoToolchain> {
    fn default() -> (f: Self)
        ensures
            !f.strips(),
    {
        JsFormatter::new(JsOptions { strip_comments: false })
    }
}

impl<T: Tools> Formatter for JsFormatter<T> {
    fn language(&self) -> (r: &'static str)
        ensures
            r@ == "javascript"@,
    {
        "javascript"
    }

    /// Exactly the extensions that select a dialect: `.d.ts` comes along as
    /// `.ts`.
    fn supports(&self, path: &str) -> (r: bool)
        ensures
            r == path_dialect(path@) is Some,
    {
        crate::js::external::dialect(path).is_ok()
    }

    fn format(&self, path: &str, source: &str, options: &FormatOptions) -> (r: Result<
        FormatResult,
        Error,
    >)
        ensures
            path_dialect(path@) is None ==> (r matches Err(e) && e matches Error::UnsupportedLanguage(
                p,
            ) && p@ == path@),
            path_dialect(path@) is Some && options.verify != VerifyLevel::External ==> (r is Ok
                <==> js_passes(path@, source@, self.strips(), options.verify)),
            path_dialect(path@) is Some ==> (r is Ok ==> js_passes(
                path@,
                source@,
                self.strips(),
                options.verify,
            )),
            r matches Ok(res) ==> res.code@ == js_code(path@, source@, self.strips())
                && res.original_tokens == token_count(options.tokenizer, source@)
                && res.formatted_tokens == token_count(options.tokenizer, res.code@),
            options.verify == VerifyLevel::External ==> (r matches Ok(res) ==> crate::js::external::checker_passes(
                self.toolchain(),
                path@,
                source@,
                res.code@,
            )),
            r matches Err(e) ==> e is UnsupportedLanguage || e is Parse || e is Verification
                || e is Io,
    {
        let program = match crate::js::parser::parse(path, source) {
            Ok(p) => p,
            Err(e) => return Err(e),
        };
        let code = crate::js::emit::emit(&program, self.options.strip_comments);
        let verdict = match options.verify {
            VerifyLevel::Reparse => crate::js::verify::reparse(path, code.as_str()),
            _ => crate::js::verify::equivalent(&program, path, code.as_str()),
        };
        match verdict {
            Ok(()) => {},
            Err(e) => return Err(e),
        }
        if options.verify == VerifyLevel::External {
            match crate::js::external::check(&self.tools, path, source, code.as_str()) {
                Ok(()) => {},
                Err(e) => return Err(e),
            }
        }
        let tokenizer = options.tokenizer.load();
        let original_tokens = tokenizer.count(source);
        let formatted_tokens = tokenizer.count(code.as_str());
        Ok(FormatResult { code, original_tokens, formatted_tokens })
    }
}

} // verus!
