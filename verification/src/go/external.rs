//! External verification for Go: the output is handed to `gofmt -e`, the
//! toolchain's own parser, on top of the built-in checks. The verdict is the
//! exit status alone. The original is checked first, and an original the
//! toolchain already rejects is not blamed on the formatter.
use vstd::prelude::*;
use crate::error::Error;
use crate::external::{Outcome, Tools, found_view, join3, settled_by_original, strs};

verus! {

/// The names probed for the checker, in order.
pub const GOFMT_NAMES: [&'static str; 1] = ["gofmt"];

/// What the probe passes: `-h` prints usage and exits. `gofmt` has no
/// `--version`, and a bare `gofmt` would read standard input.
pub const GOFMT_PROBE_ARGS: [&'static str; 1] = ["-h"];

/// Parse-only invocation: `-e` reports every parse error.
pub const GOFMT_ARGS: [&'static str; 1] = ["-e"];

/// The scratch names of the two files checked.
pub const FORMATTED_NAME: &'static str = "formatted.go";

pub const ORIGINAL_NAME: &'static str = "original.go";

/// The message when no checker can be started.
pub open spec fn missing_message() -> Seq<char> {
    "external verification needs `gofmt` on PATH: it was not found"@
}

/// What the check concludes from the checker's verdict on the output.
pub open spec fn output_verdict(program: Seq<char>, outcome: Outcome) -> Result<(), Seq<char>> {
    match outcome {
        Outcome::Pass => Ok(()),
        Outcome::Fail(message) => Err(
            "external check failed ("@ + program + " -e): "@ + message@,
        ),
    }
}

/// The check's verdict once the checker has judged the output: a pass
/// accepts it, a failure rejects it quoting the checker.
pub fn judge_output(program: &str, outcome: Outcome) -> (r: Result<(), Error>)
    ensures
        match output_verdict(program@, outcome) {
            Ok(()) => r is Ok,
            Err(m) => r matches Err(Error::Verification(s)) && s@ == m,
        },
{
    match outcome {
        Outcome::Pass => Ok(()),
        Outcome::Fail(message) => {
            let head = join3("external check failed (", program, " -e): ");
            Err(Error::Verification(head.concat(message.as_str())))
        },
    }
}

/// The program the check runs, from what the probe found; none found is a
/// verification failure naming the tool.
pub fn located(found: Option<String>) -> (r: Result<String, Error>)
    ensures
        match found {
            Some(p) => r matches Ok(q) && q@ == p@,
            None => r matches Err(Error::Verification(m)) && m@ == missing_message(),
        },
{
    match found {
        Some(p) => Ok(p),
        None => Err(
            Error::Verification(
                String::from_str("external verification needs `gofmt` on PATH: it was not found"),
            ),
        ),
    }
}

/// Whether `tools` may report `program` as the checker found.
pub open spec fn gofmt_found<T: Tools>(tools: T, program: Option<Seq<char>>) -> bool {
    tools.locates(strs(GOFMT_NAMES@), strs(GOFMT_PROBE_ARGS@), program)
}

/// Whether `tools` may give `result` for `contents` checked as `name` by
/// `program -e`.
pub open spec fn gofmt_says<T: Tools>(
    tools: T,
    program: Seq<char>,
    name: Seq<char>,
    contents: Seq<char>,
    result: Result<Outcome, Error>,
) -> bool {
    tools.judges(program, strs(GOFMT_ARGS@), name, contents, result)
}

/// The answers on which the check passes: the original is rejected, which
/// settles it, or the original and then the output are accepted.
pub open spec fn gofmt_accepts<T: Tools>(
    tools: T,
    program: Seq<char>,
    original: Seq<char>,
    code: Seq<char>,
) -> bool {
    ||| exists|m: String|
        #[trigger] gofmt_says(tools, program, ORIGINAL_NAME@, original, Ok(Outcome::Fail(m)))
    ||| gofmt_says(tools, program, ORIGINAL_NAME@, original, Ok(Outcome::Pass)) && gofmt_says(
        tools,
        program,
        FORMATTED_NAME@,
        code,
        Ok(Outcome::Pass),
    )
}

/// The answers on which the check fails with message `m`: the original is
/// accepted and the output rejected, and `m` quotes the rejection.
pub open spec fn gofmt_rejects<T: Tools>(
    tools: T,
    m: Seq<char>,
    original: Seq<char>,
    code: Seq<char>,
) -> bool {
    exists|p: Seq<char>, msg: String|
        #![trigger gofmt_found(tools, Some(p)), gofmt_says(tools, p, FORMATTED_NAME@, code, Ok(Outcome::Fail(msg)))]
        gofmt_found(tools, Some(p)) && gofmt_says(tools, p, ORIGINAL_NAME@, original, Ok(Outcome::Pass))
            && gofmt_says(tools, p, FORMATTED_NAME@, code, Ok(Outcome::Fail(msg))) && m
            == "external check failed ("@ + p + " -e): "@ + msg@
}

/// The answers on which the check cannot be carried out: a request for the
/// original, or for the output once the original was accepted, failed.
pub open spec fn gofmt_unreachable<T: Tools>(tools: T, original: Seq<char>, code: Seq<char>) -> bool {
    ||| exists|p: Seq<char>, e: Error|
        #![trigger gofmt_found(tools, Some(p)), gofmt_says(tools, p, ORIGINAL_NAME@, original, Err(e))]
        gofmt_found(tools, Some(p)) && gofmt_says(tools, p, ORIGINAL_NAME@, original, Err(e))
    ||| exists|p: Seq<char>, e: Error|
        #![trigger gofmt_found(tools, Some(p)), gofmt_says(tools, p, FORMATTED_NAME@, code, Err(e))]
        gofmt_found(tools, Some(p)) && gofmt_says(tools, p, ORIGINAL_NAME@, original, Ok(Outcome::Pass))
            && gofmt_says(tools, p, FORMATTED_NAME@, code, Err(e))
}

/// The answers on which the whole check passes: gofmt is found and accepts.
pub open spec fn gofmt_passes<T: Tools>(tools: T, original: Seq<char>, code: Seq<char>) -> bool {
    exists|p: Seq<char>|
        #[trigger] gofmt_found(tools, Some(p)) && gofmt_accepts(tools, p, original, code)
}

/// Runs `gofmt -e` over `code`, the formatted output, through `tools`.
/// `original` is checked first, as `original.go`, and only when it passes is
/// `code` checked, as `formatted.go`: an original the toolchain already
/// rejects satisfies the check.
pub fn check<T: Tools>(tools: &T, original: &str, code: &str) -> (r: Result<(), Error>)
    ensures
        r is Ok ==> gofmt_passes(*tools, original@, code@),
        r matches Err(Error::Verification(m)) ==> (gofmt_found(*tools, None) && m@
            == missing_message()) || gofmt_rejects(*tools, m@, original@, code@),
        r matches Err(Error::Io(_)) ==> gofmt_unreachable(*tools, original@, code@),
        r matches Err(Error::Verification(m)) ==> m@ == missing_message() || is_prefix_chars(
            "external check failed ("@,
            m@,
        ),
        r matches Err(e) ==> e is Verification || e is Io,
{
    let found = tools.locate(&GOFMT_NAMES, &GOFMT_PROBE_ARGS);
    let program = match located(found) {
        Ok(p) => p,
        Err(e) => return Err(e),
    };
    assert(gofmt_found(*tools, Some(program@)));
    let first = tools.check_file(program.as_str(), &GOFMT_ARGS, ORIGINAL_NAME, original);
    let outcome = match first {
        Err(e) => {
            assert(gofmt_says(*tools, program@, ORIGINAL_NAME@, original@, Err(e)));
            return Err(io_only(e));
        },
        Ok(outcome) => outcome,
    };
    let ghost before = outcome;
    if settled_by_original(&outcome) {
        proof {
            if let Outcome::Fail(m) = before {
                assert(gofmt_says(*tools, program@, ORIGINAL_NAME@, original@, Ok(Outcome::Fail(m))));
            }
        }
        return Ok(());
    }
    assert(gofmt_says(*tools, program@, ORIGINAL_NAME@, original@, Ok(Outcome::Pass)));
    let second = tools.check_file(program.as_str(), &GOFMT_ARGS, FORMATTED_NAME, code);
    match second {
        Err(e) => {
            assert(gofmt_says(*tools, program@, FORMATTED_NAME@, code@, Err(e)));
            Err(io_only(e))
        },
        Ok(outcome) => {
            let ghost outcome_view = outcome;
            let r = judge_output(program.as_str(), outcome);
            proof {
                if let Outcome::Fail(message) = outcome_view {
                    let p = "external check failed ("@;
                    lemma_prefix_concat(p, program@ + " -e): "@ + message@);
                    assert(p + program@ + " -e): "@ + message@ =~= p + (program@ + " -e): "@
                        + message@));
                    assert(gofmt_says(
                        *tools,
                        program@,
                        FORMATTED_NAME@,
                        code@,
                        Ok(Outcome::Fail(message)),
                    ));
                } else {
                    assert(gofmt_says(*tools, program@, FORMATTED_NAME@, code@, Ok(Outcome::Pass)));
                }
            }
            r
        },
    }
}

/// Whether `p` is a prefix of `s`.
pub open spec fn is_prefix_chars(p: Seq<char>, s: Seq<char>) -> bool {
    p.len() <= s.len() && s.subrange(0, p.len() as int) == p
}

/// A sequence is a prefix of itself followed by anything.
pub proof fn lemma_prefix_concat(p: Seq<char>, rest: Seq<char>)
    ensures
        is_prefix_chars(p, p + rest),
{
    assert((p + rest).subrange(0, p.len() as int) =~= p);
}

/// A failure of the tools themselves, reported as an input/output error.
pub fn io_only(e: Error) -> (r: Error)
    ensures
        r is Io,
{
    match e {
        Error::Io(m) => Error::Io(m),
        other => Error::Io(other.to_string()),
    }
}

} // verus!
