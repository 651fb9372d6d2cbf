//! Parsing JavaScript and TypeScript with oxc. The dialect is chosen by the
//! path's extension, and a parse that panicked or reported any diagnostic,
//! recoverable ones included, is refused with every diagnostic quoted.
use vstd::prelude::*;
use crate::error::Error;
use crate::js::external::path_dialect;
use crate::lines::views;
use crate::lines::{join, joined};

verus! {

/// What oxc makes of a source in the dialect its path selects: whether the
/// parser panicked, its diagnostics as text, and the program generated back
/// minified, once with the generator's default comments and once in the
/// comment-free canonical form.
#[derive(Debug)]
pub struct Parsed {
    pub panicked: bool,
    pub diagnostics: Vec<String>,
    pub kept: String,
    pub canonical: String,
}

/// `Parser::parse` of `source` in the dialect `path` selects: whether it
/// panicked, and its diagnostics rendered as text.
pub uninterp spec fn oxc_parse(path: Seq<char>, source: Seq<char>) -> (bool, Seq<Seq<char>>);

/// `Codegen::build` of the program `Parser::parse` returns for `source` in
/// the dialect `path` selects: minified, with no comment when `strip` holds
/// (`CodegenOptions::minify()`), otherwise with the generator's default
/// comments.
pub uninterp spec fn oxc_codegen(path: Seq<char>, source: Seq<char>, strip: bool) -> Seq<char>;

/// Parses `source` in the dialect `SourceType::from_path` selects for
/// `path`, which it does exactly for the eight extensions `.js`, `.mjs`,
/// `.cjs`, `.jsx`, `.ts`, `.mts`, `.cts` and `.tsx` of the path's file name,
/// and generates the program back both ways. Which sources parse cleanly is
/// not described here.
#[verifier::external_body]
fn run_oxc(path: &str, source: &str) -> (r: Option<Parsed>)
    ensures
        r is Some <==> path_dialect(path@) is Some,
        r matches Some(p) ==> (p.panicked, views(p.diagnostics@)) == oxc_parse(path@, source@)
            && p.kept@ == oxc_codegen(path@, source@, false) && p.canonical@ == oxc_codegen(
            path@,
            source@,
            true,
        ),
{
    let source_type = oxc_span::SourceType::from_path(std::path::Path::new(path)).ok()?;
    let arena = oxc_allocator::Allocator::default();
    let parsed = oxc_parser::Parser::new(&arena, source, source_type).parse();
    let kept = oxc_codegen::CodegenOptions { minify: true, ..Default::default() };
    let canonical = oxc_codegen::CodegenOptions::minify();
    Some(Parsed {
        panicked: parsed.panicked,
        diagnostics: parsed.diagnostics.iter().map(|d| d.to_string()).collect(),
        kept: oxc_codegen::Codegen::new().with_options(kept).build(&parsed.program).code,
        canonical: oxc_codegen::Codegen::new().with_options(canonical).build(&parsed.program).code,
    })
}

/// A parse is clean when the parser neither panicked nor reported anything.
pub open spec fn clean(outcome: (bool, Seq<Seq<char>>)) -> bool {
    !outcome.0 && outcome.1.len() == 0
}

/// The parse error for `path`: the path, then every diagnostic.
pub open spec fn parse_message(path: Seq<char>, diagnostics: Seq<Seq<char>>) -> Seq<char> {
    path + ": "@ + joined(diagnostics, "; "@)
}

/// What a parse's outcome means: clean only when the parser neither panicked
/// nor reported anything.
pub fn parse_verdict(path: &str, panicked: bool, diagnostics: &Vec<String>) -> (r: Result<(), Error>)
    ensures
        r is Ok <==> (!panicked && diagnostics@.len() == 0),
        r matches Err(e) ==> (e matches Error::Parse(m) && m@ == parse_message(
            path@,
            views(diagnostics@),
        )),
{
    if !panicked && diagnostics.len() == 0 {
        return Ok(());
    }
    let details = join(diagnostics, "; ");
    Err(Error::Parse(String::from_str(path).concat(": ").concat(details.as_str())))
}

/// Parses `source` in the dialect `path`'s extension selects. An extension
/// that selects none is refused as an unsupported language; a parse with
/// any diagnostic is refused as a parse error quoting every diagnostic.
pub fn parse(path: &str, source: &str) -> (r: Result<Parsed, Error>)
    ensures
        path_dialect(path@) is None ==> (r matches Err(e) && e matches Error::UnsupportedLanguage(
            p,
        ) && p@ == path@),
        path_dialect(path@) is Some ==> (r is Ok <==> clean(oxc_parse(path@, source@))),
        path_dialect(path@) is Some && !clean(oxc_parse(path@, source@)) ==> (r matches Err(e)
            && e matches Error::Parse(m) && m@ == parse_message(path@, oxc_parse(path@, source@).1)),
        r matches Ok(p) ==> p.kept@ == oxc_codegen(path@, source@, false) && p.canonical@
            == oxc_codegen(path@, source@, true),
        r matches Err(e) ==> e is UnsupportedLanguage || e is Parse,
{
    let parsed = match run_oxc(path, source) {
        Some(p) => p,
        None => return Err(Error::UnsupportedLanguage(String::from_str(path))),
    };
    match parse_verdict(path, parsed.panicked, &parsed.diagnostics) {
        Ok(()) => Ok(parsed),
        Err(e) => Err(e),
    }
}

} // verus!
