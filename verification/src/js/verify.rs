//! Verification of a JavaScript/TypeScript candidate: it must re-parse
//! cleanly in the same dialect, and for equivalence its canonical form must
//! be the original's.
use vstd::prelude::*;
use crate::error::Error;
use crate::js::emit::canonical;
use crate::js::external::path_dialect;
use crate::js::parser::{Parsed, clean, oxc_codegen, oxc_parse, parse, parse_message};
use crate::text::is_prefix;

verus! {

/// A parse failure of the output, reported as a verification failure that
/// quotes it.
pub open spec fn reparse_failure(e: Error) -> Seq<char> {
    "output failed to re-parse: "@ + e.message_view()
}

fn as_reparse_failure(e: Error) -> (r: Error)
    ensures
        r matches Error::Verification(m) && m@ == reparse_failure(e) && is_prefix(
            "output failed to re-parse: "@,
            m@,
        ),
        e matches Error::UnsupportedLanguage(p) ==> (r matches Error::Verification(m) && m@
            == "output failed to re-parse: "@ + "unsupported language for path: "@ + p@),
{
    let shown = e.to_string();
    let r = Error::Verification(String::from_str("output failed to re-parse: ").concat(shown.as_str()));
    proof {
        let head = "output failed to re-parse: "@;
        let m = reparse_failure(e);
        assert(m.subrange(0, head.len() as int) =~= head);
        if let Error::UnsupportedLanguage(p) = e {
            assert(m =~= head + "unsupported language for path: "@ + p@);
        }
    }
    r
}

/// Whether `r` is the refusal of a path whose extension selects no
/// dialect, reported as a failed re-parse.
pub open spec fn unsupported_reparse(r: Result<(), Error>, path: Seq<char>) -> bool {
    r matches Err(e) && e matches Error::Verification(m) && m@ == "output failed to re-parse: "@
        + "unsupported language for path: "@ + path
}

/// Re-parses `code` in the dialect `path` selects. A path that selects no
/// dialect is refused before any parse; otherwise the output passes exactly
/// when it parses cleanly, and a failure quotes the parse error.
pub fn reparse(path: &str, code: &str) -> (r: Result<(), Error>)
    ensures
        path_dialect(path@) is None ==> unsupported_reparse(r, path@),
        path_dialect(path@) is Some ==> (r is Ok <==> clean(oxc_parse(path@, code@))),
        path_dialect(path@) is Some && !clean(oxc_parse(path@, code@)) ==> (r matches Err(e)
            && e matches Error::Verification(m) && m@ == "output failed to re-parse: "@
            + "parse error: "@ + parse_message(path@, oxc_parse(path@, code@).1)),
        r matches Err(e) ==> (e matches Error::Verification(m) && is_prefix(
            "output failed to re-parse: "@,
            m@,
        )),
{
    match parse(path, code) {
        Ok(_) => Ok(()),
        Err(e) => Err(as_reparse_failure(e)),
    }
}

/// The equivalence verdict on two canonical forms.
pub fn same_canonical(before: &str, after: &str) -> (r: Result<(), Error>)
    ensures
        r is Ok <==> before@ == after@,
        r matches Err(e) ==> (e matches Error::Verification(m) && m@
            == "output AST differs from input"@),
{
    if crate::text::str_eq(before, after) {
        Ok(())
    } else {
        Err(Error::Verification(String::from_str("output AST differs from input")))
    }
}

/// Re-parses `code` and requires its canonical form to be `original`'s. A
/// path that selects no dialect is refused before any parse; a failure is
/// either a failed re-parse quoting the parse error or a difference of the
/// canonical forms.
pub fn equivalent(original: &Parsed, path: &str, code: &str) -> (r: Result<(), Error>)
    ensures
        path_dialect(path@) is None ==> unsupported_reparse(r, path@),
        path_dialect(path@) is Some ==> (r is Ok <==> clean(oxc_parse(path@, code@))
            && original.canonical@ == oxc_codegen(path@, code@, true)),
        path_dialect(path@) is Some && !clean(oxc_parse(path@, code@)) ==> (r matches Err(e)
            && e matches Error::Verification(m) && m@ == "output failed to re-parse: "@
            + "parse error: "@ + parse_message(path@, oxc_parse(path@, code@).1)),
        r matches Err(e) ==> (e matches Error::Verification(m) && (is_prefix(
            "output failed to re-parse: "@,
            m@,
        ) || m@ == "output AST differs from input"@)),
{
    let reparsed = match parse(path, code) {
        Ok(p) => p,
        Err(e) => return Err(as_reparse_failure(e)),
    };
    let before = canonical(original);
    let after = canonical(&reparsed);
    same_canonical(before.as_str(), after.as_str())
}

} // verus!
