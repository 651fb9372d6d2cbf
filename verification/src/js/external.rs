//! External verification for JavaScript and TypeScript: the output is handed
//! to `tsc` in syntax-only mode, or to `node --check` for the three dialects
//! node reads, on top of the built-in checks. The original is checked first,
//! under a scratch name carrying the target's extension, and an original the
//! toolchain already rejects is not blamed on the formatter.
use vstd::prelude::*;
use crate::error::Error;
use crate::external::{Outcome, Tools, found_view, join2, join3, settled_by_original, strs};
use crate::go::external::{io_only, is_prefix_chars, lemma_prefix_concat};
use crate::path::extension;

verus! {

/// `tsc` first, then the Windows npm shim.
pub const TSC_NAMES: [&'static str; 2] = ["tsc", "tsc.cmd"];

/// Syntax-only invocation: no type checking, plain JavaScript allowed, JSX
/// accepted without a tsconfig, library declarations skipped.
pub const TSC_ARGS: [&'static str; 6] = [
    "--noEmit",
    "--noCheck",
    "--skipLibCheck",
    "--allowJs",
    "--jsx",
    "preserve",
];

pub const NODE_NAMES: [&'static str; 1] = ["node"];

pub const NODE_ARGS: [&'static str; 1] = ["--check"];

/// What the probe passes to either checker: both print their version and
/// exit.
pub const VERSION_PROBE_ARGS: [&'static str; 1] = ["--version"];

/// A dialect as far as the external checkers care: the extension that
/// selects it, and whether `node --check` can read it.
#[derive(Clone, Copy, Debug)]
pub struct Dialect {
    pub extension: &'static str,
    pub node_checkable: bool,
}

/// The eight extensions the backend claims, and which of them node reads.
pub open spec fn dialect_of(ext: Seq<char>) -> Option<bool> {
    if ext == "js"@ || ext == "mjs"@ || ext == "cjs"@ {
        Some(true)
    } else if ext == "jsx"@ || ext == "ts"@ || ext == "mts"@ || ext == "cts"@ || ext == "tsx"@ {
        Some(false)
    } else {
        None
    }
}

/// The node-readability of the dialect `path`'s extension selects.
pub open spec fn path_dialect(path: Seq<char>) -> Option<bool> {
    match extension(path) {
        Some(e) => dialect_of(e),
        None => None,
    }
}

/// The dialect `path`'s extension selects.
pub fn dialect(path: &str) -> (r: Result<Dialect, Error>)
    ensures
        match r {
            Ok(d) => extension(path@) == Some(d.extension@) && path_dialect(path@) == Some(
                d.node_checkable,
            ),
            Err(e) => path_dialect(path@) is None && (e matches Error::UnsupportedLanguage(s)
                && s@ == path@),
        },
{
    let names: [&'static str; 8] = ["js", "mjs", "cjs", "jsx", "ts", "mts", "cts", "tsx"];
    let mut i: usize = 0;
    while i < 8
        invariant
            0 <= i <= 8,
            names@ == seq!["js", "mjs", "cjs", "jsx", "ts", "mts", "cts", "tsx"],
            forall|j: int| 0 <= j < i ==> extension(path@) != Some(names@[j]@),
        decreases 8 - i,
    {
        if crate::path::has_extension(path, names[i]) {
            let d = Dialect { extension: names[i], node_checkable: i < 3 };
            return Ok(d);
        }
        i = i + 1;
    }
    Err(Error::UnsupportedLanguage(String::from_str(path)))
}

/// A checker resolved against the current machine.
#[derive(Debug)]
pub struct Checker {
    pub program: String,
    pub args: &'static [&'static str],
}

/// The message when neither checker can be started for a node-readable
/// dialect.
pub open spec fn neither_message() -> Seq<char> {
    "external verification needs `tsc` or `node` on PATH: neither was found"@
}

/// The message when `tsc` cannot be started for a dialect node cannot read.
pub open spec fn tsc_only_message(ext: Seq<char>) -> Seq<char> {
    "external verification of a ."@ + ext
        + " file needs `tsc` on PATH: it was not found, and the `node --check` fallback reads only .js, .mjs and .cjs"@
}

/// The checker chosen from what the probes found: `tsc` when it was
/// found; otherwise `node`, for a dialect node reads, when it was found;
/// otherwise an error naming what is missing. `node` is `None` when it was
/// not probed.
pub fn choose_checker(dialect: Dialect, tsc: Option<String>, node: Option<String>) -> (r: Result<
    Checker,
    Error,
>)
    ensures
        match tsc {
            Some(p) => r matches Ok(c) && c.program@ == p@ && c.args@ == TSC_ARGS@,
            None => match node {
                Some(q) if dialect.node_checkable => r matches Ok(c) && c.program@ == q@
                    && c.args@ == NODE_ARGS@,
                _ => r matches Err(Error::Verification(m)) && m@ == (if dialect.node_checkable {
                    neither_message()
                } else {
                    tsc_only_message(dialect.extension@)
                }),
            },
        },
{
    if let Some(program) = tsc {
        return Ok(Checker { program, args: &TSC_ARGS });
    }
    if dialect.node_checkable {
        if let Some(program) = node {
            return Ok(Checker { program, args: &NODE_ARGS });
        }
        return Err(
            Error::Verification(
                String::from_str(
                    "external verification needs `tsc` or `node` on PATH: neither was found",
                ),
            ),
        );
    }
    Err(
        Error::Verification(
            join3(
                "external verification of a .",
                dialect.extension,
                " file needs `tsc` on PATH: it was not found, and the `node --check` fallback reads only .js, .mjs and .cjs",
            ),
        ),
    )
}

/// Whether `tools` may answer the probe for `names` with `found`.
pub open spec fn js_found<T: Tools>(tools: T, names: Seq<Seq<char>>, found: Option<Seq<char>>) -> bool {
    tools.locates(names, strs(VERSION_PROBE_ARGS@), found)
}

/// The checkers `tools`' answers make `program args...`: `tsc` when it is
/// found; otherwise, for a dialect node reads, `node` when it is found.
pub open spec fn js_picks<T: Tools>(
    tools: T,
    node_checkable: bool,
    program: Seq<char>,
    args: Seq<Seq<char>>,
) -> bool {
    ||| js_found(tools, strs(TSC_NAMES@), Some(program)) && args == strs(TSC_ARGS@)
    ||| js_found(tools, strs(TSC_NAMES@), None) && node_checkable && js_found(
        tools,
        strs(NODE_NAMES@),
        Some(program),
    ) && args == strs(NODE_ARGS@)
}

/// The answers on which no checker can be had: no `tsc`, and, for a dialect
/// node reads, no `node` either.
pub open spec fn js_none<T: Tools>(tools: T, node_checkable: bool) -> bool {
    js_found(tools, strs(TSC_NAMES@), None) && (!node_checkable || js_found(
        tools,
        strs(NODE_NAMES@),
        None,
    ))
}

/// Picks the checker for `dialect`: `tsc` is probed first; `node` is probed
/// only when `tsc` was not found and the dialect is one node reads; the
/// choice is [`choose_checker`]'s.
pub fn checker<T: Tools>(tools: &T, dialect: Dialect) -> (r: Result<Checker, Error>)
    ensures
        match r {
            Ok(c) => js_picks(*tools, dialect.node_checkable, c.program@, strs(c.args@)),
            Err(e) => js_none(*tools, dialect.node_checkable) && (e matches Error::Verification(m)
                && m@ == (if dialect.node_checkable {
                neither_message()
            } else {
                tsc_only_message(dialect.extension@)
            })),
        },
{
    let tsc = tools.locate(&TSC_NAMES, &VERSION_PROBE_ARGS);
    let node = if tsc.is_none() && dialect.node_checkable {
        tools.locate(&NODE_NAMES, &VERSION_PROBE_ARGS)
    } else {
        None
    };
    choose_checker(dialect, tsc, node)
}

/// What the check concludes from the checker's verdict on the output.
pub open spec fn output_verdict(program: Seq<char>, outcome: Outcome) -> Result<(), Seq<char>> {
    match outcome {
        Outcome::Pass => Ok(()),
        Outcome::Fail(message) => Err("external check failed ("@ + program + "): "@ + message@),
    }
}

/// The check's verdict once the checker has judged the output.
pub fn judge_output(program: &str, outcome: Outcome) -> (r: Result<(), Error>)
    ensures
        match output_verdict(program@, outcome) {
            Ok(()) => r is Ok,
            Err(m) => r matches Err(Error::Verification(s)) && s@ == m,
        },
{
    match outcome {
        Outcome::Pass => Ok(()),
        Outcome::Fail(message) => {
            let head = join3("external check failed (", program, "): ");
            Err(Error::Verification(head.concat(message.as_str())))
        },
    }
}

/// The answers on which the check passes for a file of extension `ext`: the
/// original is rejected, which settles it, or the original and then the
/// output are accepted.
pub open spec fn js_accepts<T: Tools>(
    tools: T,
    program: Seq<char>,
    args: Seq<Seq<char>>,
    ext: Seq<char>,
    original: Seq<char>,
    code: Seq<char>,
) -> bool {
    ||| exists|m: String|
        #[trigger] tools.judges(program, args, "original."@ + ext, original, Ok(Outcome::Fail(m)))
    ||| tools.judges(program, args, "original."@ + ext, original, Ok(Outcome::Pass)) && tools.judges(
        program,
        args,
        "formatted."@ + ext,
        code,
        Ok(Outcome::Pass),
    )
}

/// The answers on which the check fails with message `m`: the original is
/// accepted and the output rejected, and `m` quotes the rejection.
pub open spec fn js_rejects<T: Tools>(
    tools: T,
    node_checkable: bool,
    ext: Seq<char>,
    m: Seq<char>,
    original: Seq<char>,
    code: Seq<char>,
) -> bool {
    exists|p: Seq<char>, a: Seq<Seq<char>>, msg: String|
        #![trigger js_picks(tools, node_checkable, p, a), tools.judges(p, a, "formatted."@ + ext, code, Ok(Outcome::Fail(msg)))]
        js_picks(tools, node_checkable, p, a) && tools.judges(
            p,
            a,
            "original."@ + ext,
            original,
            Ok(Outcome::Pass),
        ) && tools.judges(p, a, "formatted."@ + ext, code, Ok(Outcome::Fail(msg))) && m
            == "external check failed ("@ + p + "): "@ + msg@
}

/// The answers on which the check cannot be carried out: a request for the
/// original, or for the output once the original was accepted, failed.
pub open spec fn js_unreachable<T: Tools>(
    tools: T,
    node_checkable: bool,
    ext: Seq<char>,
    original: Seq<char>,
    code: Seq<char>,
) -> bool {
    ||| exists|p: Seq<char>, a: Seq<Seq<char>>, e: Error|
        #![trigger js_picks(tools, node_checkable, p, a), tools.judges(p, a, "original."@ + ext, original, Err(e))]
        js_picks(tools, node_checkable, p, a) && tools.judges(p, a, "original."@ + ext, original, Err(e))
    ||| exists|p: Seq<char>, a: Seq<Seq<char>>, e: Error|
        #![trigger js_picks(tools, node_checkable, p, a), tools.judges(p, a, "formatted."@ + ext, code, Err(e))]
        js_picks(tools, node_checkable, p, a) && tools.judges(
            p,
            a,
            "original."@ + ext,
            original,
            Ok(Outcome::Pass),
        ) && tools.judges(p, a, "formatted."@ + ext, code, Err(e))
}

/// The answers on which the whole check passes for `path`: it selects a
/// dialect, a checker is found for it, and the checker accepts.
pub open spec fn checker_passes<T: Tools>(
    tools: T,
    path: Seq<char>,
    original: Seq<char>,
    code: Seq<char>,
) -> bool {
    path_dialect(path) matches Some(n) && exists|p: Seq<char>, a: Seq<Seq<char>>|
        #[trigger] js_picks(tools, n, p, a) && js_accepts(
            tools,
            p,
            a,
            extension(path)->0,
            original,
            code,
        )
}

/// Runs the external checker over `code`, the formatted output for `path`:
/// the original first, under `original.<ext>`, and the output under
/// `formatted.<ext>` only when the original passed. A path that selects no
/// dialect is refused before anything is asked of `tools`.
pub fn check<T: Tools>(tools: &T, path: &str, original: &str, code: &str) -> (r: Result<
    (),
    Error,
>)
    ensures
        path_dialect(path@) is None ==> (r matches Err(Error::UnsupportedLanguage(s)) && s@
            == path@),
        r is Ok ==> checker_passes(*tools, path@, original@, code@),
        r matches Err(Error::Verification(m)) ==> (path_dialect(path@) matches Some(n) && ((
        js_none(*tools, n) && (m@ == neither_message() || m@ == tsc_only_message(
            extension(path@)->0,
        ))) || js_rejects(*tools, n, extension(path@)->0, m@, original@, code@))),
        r matches Err(Error::Io(_)) ==> (path_dialect(path@) matches Some(n) && js_unreachable(
            *tools,
            n,
            extension(path@)->0,
            original@,
            code@,
        )),
        path_dialect(path@) is Some ==> (r matches Err(Error::Verification(m)) ==> m@
            == neither_message() || m@ == tsc_only_message(extension(path@)->0)
            || is_prefix_chars("external check failed ("@, m@)),
        r matches Err(e) ==> e is Verification || e is Io || e is UnsupportedLanguage,
{
    let dialect = match dialect(path) {
        Ok(d) => d,
        Err(e) => return Err(e),
    };
    let checker = match checker(tools, dialect) {
        Ok(c) => c,
        Err(e) => return Err(e),
    };
    let ghost n = dialect.node_checkable;
    let ghost a = strs(checker.args@);
    assert(extension(path@)->0 == dialect.extension@);
    assert(path_dialect(path@) == Some(n));
    let before_name = join2("original.", dialect.extension);
    let first = tools.check_file(checker.program.as_str(), checker.args, before_name.as_str(), original);
    assert(js_picks(*tools, n, checker.program@, a));
    let outcome = match first {
        Err(e) => {
            assert(tools.judges(checker.program@, a, "original."@ + dialect.extension@, original@, Err(e)));
            return Err(io_only(e));
        },
        Ok(outcome) => outcome,
    };
    let ghost before = outcome;
    if settled_by_original(&outcome) {
        proof {
            if let Outcome::Fail(m) = before {
                assert(tools.judges(
                    checker.program@,
                    a,
                    "original."@ + dialect.extension@,
                    original@,
                    Ok(Outcome::Fail(m)),
                ));
            }
            assert(js_accepts(*tools, checker.program@, a, extension(path@)->0, original@, code@));
            assert(js_picks(*tools, path_dialect(path@)->0, checker.program@, a));
        }
        return Ok(());
    }
    assert(tools.judges(
        checker.program@,
        a,
        "original."@ + dialect.extension@,
        original@,
        Ok(Outcome::Pass),
    ));
    let after_name = join2("formatted.", dialect.extension);
    let second = tools.check_file(checker.program.as_str(), checker.args, after_name.as_str(), code);
    match second {
        Err(e) => {
            assert(tools.judges(checker.program@, a, "formatted."@ + dialect.extension@, code@, Err(e)));
            Err(io_only(e))
        },
        Ok(outcome) => {
            let ghost seen = outcome;
            let r = judge_output(checker.program.as_str(), outcome);
            proof {
                if let Outcome::Fail(message) = seen {
                    let p = "external check failed ("@;
                    let rest = checker.program@ + "): "@ + message@;
                    assert(p + checker.program@ + "): "@ + message@ =~= p + rest);
                    lemma_prefix_concat(p, rest);
                    assert(tools.judges(
                        checker.program@,
                        a,
                        "formatted."@ + dialect.extension@,
                        code@,
                        Ok(Outcome::Fail(message)),
                    ));
                } else {
                    assert(tools.judges(
                        checker.program@,
                        a,
                        "formatted."@ + dialect.extension@,
                        code@,
                        Ok(Outcome::Pass),
                    ));
                    assert(js_accepts(
                        *tools,
                        checker.program@,
                        a,
                        extension(path@)->0,
                        original@,
                        code@,
                    ));
                    assert(js_picks(*tools, path_dialect(path@)->0, checker.program@, a));
                }
            }
            r
        },
    }
}

} // verus!
