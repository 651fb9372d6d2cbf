//! External verification for Java: the output is handed to `javac`, stopped
//! after its parse phase, on top of the built-in checks. The verdict is the
//! exit status alone. Because an unknown `-XD` key is silently ignored by
//! javac, the check first runs a self-test file that only a parse-only run
//! accepts; the original is checked next, and an original the compiler
//! already rejects is not blamed on the formatter.
use vstd::prelude::*;
use crate::error::Error;
use crate::external::{Outcome, Tools, found_view, join3, settled_by_original, strs};
use crate::go::external::{io_only, is_prefix_chars, lemma_prefix_concat};

verus! {

/// The names probed for the compiler, in order.
pub const JAVAC_NAMES: [&'static str; 1] = ["javac"];

/// What the probe passes: `-version` prints the version and exits 0, where
/// `-h` and a bare invocation both exit 2.
pub const JAVAC_PROBE_ARGS: [&'static str; 1] = ["-version"];

/// Parse-only invocation: stop after the parse phase, before anything is
/// resolved.
pub const JAVAC_ARGS: [&'static str; 1] = ["-XDshould-stop.ifNoError=PARSE"];

/// The scratch names of the three files checked.
pub const FORMATTED_NAME: &'static str = "formatted.java";

pub const ORIGINAL_NAME: &'static str = "original.java";

pub const SELF_TEST_NAME: &'static str = "selftest.java";

/// Valid Java whose single import no classpath can resolve: accepted when
/// javac stops after parsing, rejected by a full compile.
pub const SELF_TEST_SOURCE: &'static str =
    "import com.example.tokenpress.absent.Missing;\n\nclass TokenPressParseGateSelfTest {\n    Missing field;\n}\n";

/// The message when no compiler can be started.
pub open spec fn missing_message() -> Seq<char> {
    "external verification needs `javac` on PATH: it was not found"@
}

/// The head of the message when the self-test file was rejected.
pub open spec fn distrust_head(program: Seq<char>) -> Seq<char> {
    "external verification cannot trust `"@ + program
        + " -XDshould-stop.ifNoError=PARSE`: its self-test file — valid Java whose one import no classpath can resolve — was rejected, so this JDK is no longer stopping after the parse phase and the check would be a whole-program compile: "@
}

/// What the check concludes from the compiler's verdict on the self-test file.
pub open spec fn self_test_verdict(program: Seq<char>, outcome: Outcome) -> Result<(), Seq<char>> {
    match outcome {
        Outcome::Pass => Ok(()),
        Outcome::Fail(message) => Err(distrust_head(program) + message@),
    }
}

/// What the check concludes from the compiler's verdict on the output.
pub open spec fn output_verdict(program: Seq<char>, outcome: Outcome) -> Result<(), Seq<char>> {
    match outcome {
        Outcome::Pass => Ok(()),
        Outcome::Fail(message) => Err(
            "external check failed ("@ + program + " -XDshould-stop.ifNoError=PARSE): "@
                + message@,
        ),
    }
}

/// The check's verdict on the self-test run: anything but a pass means the
/// option no longer stops javac after parsing, and the check cannot be trusted.
pub fn judge_self_test(program: &str, outcome: Outcome) -> (r: Result<(), Error>)
    ensures
        match self_test_verdict(program@, outcome) {
            Ok(()) => r is Ok,
            Err(m) => r matches Err(Error::Verification(s)) && s@ == m,
        },
{
    match outcome {
        Outcome::Pass => Ok(()),
        Outcome::Fail(message) => {
            let head = join3(
                "external verification cannot trust `",
                program,
                " -XDshould-stop.ifNoError=PARSE`: its self-test file — valid Java whose one import no classpath can resolve — was rejected, so this JDK is no longer stopping after the parse phase and the check would be a whole-program compile: ",
            );
            Err(Error::Verification(head.concat(message.as_str())))
        },
    }
}

/// The check's verdict once the compiler has judged the output.
pub fn judge_output(program: &str, outcome: Outcome) -> (r: Result<(), Error>)
    ensures
        match output_verdict(program@, outcome) {
            Ok(()) => r is Ok,
            Err(m) => r matches Err(Error::Verification(s)) && s@ == m,
        },
{
    match outcome {
        Outcome::Pass => Ok(()),
        Outcome::Fail(message) => {
            let head = join3(
                "external check failed (",
                program,
                " -XDshould-stop.ifNoError=PARSE): ",
            );
            Err(Error::Verification(head.concat(message.as_str())))
        },
    }
}

/// The program the check runs, from what the probe found; none found is a
/// verification failure naming the compiler.
pub fn located(found: Option<String>) -> (r: Result<String, Error>)
    ensures
        match found {
            Some(p) => r matches Ok(q) && q@ == p@,
            None => r matches Err(Error::Verification(m)) && m@ == missing_message(),
        },
{
    match found {
        Some(p) => Ok(p),
        None => Err(
            Error::Verification(
                String::from_str("external verification needs `javac` on PATH: it was not found"),
            ),
        ),
    }
}

/// Whether `tools` may report `program` as the compiler found.
pub open spec fn javac_found<T: Tools>(tools: T, program: Option<Seq<char>>) -> bool {
    tools.locates(strs(JAVAC_NAMES@), strs(JAVAC_PROBE_ARGS@), program)
}

/// Whether `tools` may give `result` for `contents` checked as `name` by
/// `program -XDshould-stop.ifNoError=PARSE`.
pub open spec fn javac_says<T: Tools>(
    tools: T,
    program: Seq<char>,
    name: Seq<char>,
    contents: Seq<char>,
    result: Result<Outcome, Error>,
) -> bool {
    tools.judges(program, strs(JAVAC_ARGS@), name, contents, result)
}

/// The answers on which the check passes: the self-test file is accepted,
/// and then the original is rejected, which settles it, or the original and
/// the output are accepted.
pub open spec fn javac_accepts<T: Tools>(
    tools: T,
    program: Seq<char>,
    original: Seq<char>,
    code: Seq<char>,
) -> bool {
    &&& javac_says(tools, program, SELF_TEST_NAME@, SELF_TEST_SOURCE@, Ok(Outcome::Pass))
    &&& {
        ||| exists|m: String|
            #[trigger] javac_says(tools, program, ORIGINAL_NAME@, original, Ok(Outcome::Fail(m)))
        ||| javac_says(tools, program, ORIGINAL_NAME@, original, Ok(Outcome::Pass)) && javac_says(
            tools,
            program,
            FORMATTED_NAME@,
            code,
            Ok(Outcome::Pass),
        )
    }
}

/// The answers on which the check fails with message `m`: the self-test file
/// is rejected, and `m` distrusts the compiler quoting it; or the self-test
/// file and the original are accepted and the output rejected, and `m`
/// quotes the rejection.
pub open spec fn javac_rejects<T: Tools>(
    tools: T,
    m: Seq<char>,
    original: Seq<char>,
    code: Seq<char>,
) -> bool {
    ||| exists|p: Seq<char>, msg: String|
        #![trigger javac_found(tools, Some(p)), javac_says(tools, p, SELF_TEST_NAME@, SELF_TEST_SOURCE@, Ok(Outcome::Fail(msg)))]
        javac_found(tools, Some(p)) && javac_says(
            tools,
            p,
            SELF_TEST_NAME@,
            SELF_TEST_SOURCE@,
            Ok(Outcome::Fail(msg)),
        ) && m == distrust_head(p) + msg@
    ||| exists|p: Seq<char>, msg: String|
        #![trigger javac_found(tools, Some(p)), javac_says(tools, p, FORMATTED_NAME@, code, Ok(Outcome::Fail(msg)))]
        javac_found(tools, Some(p)) && javac_says(
            tools,
            p,
            SELF_TEST_NAME@,
            SELF_TEST_SOURCE@,
            Ok(Outcome::Pass),
        ) && javac_says(tools, p, ORIGINAL_NAME@, original, Ok(Outcome::Pass)) && javac_says(
            tools,
            p,
            FORMATTED_NAME@,
            code,
            Ok(Outcome::Fail(msg)),
        ) && m == "external check failed ("@ + p + " -XDshould-stop.ifNoError=PARSE): "@ + msg@
}

/// The answers on which the check cannot be carried out: a request failed,
/// for the self-test file, for the original once the self-test passed, or
/// for the output once the original passed too.
pub open spec fn javac_unreachable<T: Tools>(tools: T, original: Seq<char>, code: Seq<char>) -> bool {
    ||| exists|p: Seq<char>, e: Error|
        #![trigger javac_found(tools, Some(p)), javac_says(tools, p, SELF_TEST_NAME@, SELF_TEST_SOURCE@, Err(e))]
        javac_found(tools, Some(p)) && javac_says(tools, p, SELF_TEST_NAME@, SELF_TEST_SOURCE@, Err(e))
    ||| exists|p: Seq<char>, e: Error|
        #![trigger javac_found(tools, Some(p)), javac_says(tools, p, ORIGINAL_NAME@, original, Err(e))]
        javac_found(tools, Some(p)) && javac_says(
            tools,
            p,
            SELF_TEST_NAME@,
            SELF_TEST_SOURCE@,
            Ok(Outcome::Pass),
        ) && javac_says(tools, p, ORIGINAL_NAME@, original, Err(e))
    ||| exists|p: Seq<char>, e: Error|
        #![trigger javac_found(tools, Some(p)), javac_says(tools, p, FORMATTED_NAME@, code, Err(e))]
        javac_found(tools, Some(p)) && javac_says(
            tools,
            p,
            SELF_TEST_NAME@,
            SELF_TEST_SOURCE@,
            Ok(Outcome::Pass),
        ) && javac_says(tools, p, ORIGINAL_NAME@, original, Ok(Outcome::Pass)) && javac_says(
            tools,
            p,
            FORMATTED_NAME@,
            code,
            Err(e),
        )
}

/// The answers on which the whole check passes: javac is found and accepts.
pub open spec fn javac_passes<T: Tools>(tools: T, original: Seq<char>, code: Seq<char>) -> bool {
    exists|p: Seq<char>|
        #[trigger] javac_found(tools, Some(p)) && javac_accepts(tools, p, original, code)
}

/// Runs javac's parse-only check over `code`, the formatted output, through
/// `tools`: the self-test file first, as `selftest.java`, then `original`, as
/// `original.java`, and `code`, as `formatted.java`, only when the original
/// passed.
pub fn check<T: Tools>(tools: &T, original: &str, code: &str) -> (r: Result<(), Error>)
    ensures
        r is Ok ==> javac_passes(*tools, original@, code@),
        r matches Err(Error::Verification(m)) ==> (javac_found(*tools, None) && m@
            == missing_message()) || javac_rejects(*tools, m@, original@, code@),
        r matches Err(Error::Io(_)) ==> javac_unreachable(*tools, original@, code@),
        r matches Err(Error::Verification(m)) ==> m@ == missing_message() || is_prefix_chars(
            "external verification cannot trust `"@,
            m@,
        ) || is_prefix_chars("external check failed ("@, m@),
        r matches Err(e) ==> e is Verification || e is Io,
{
    let found = tools.locate(&JAVAC_NAMES, &JAVAC_PROBE_ARGS);
    let program = match located(found) {
        Ok(p) => p,
        Err(e) => return Err(e),
    };
    assert(javac_found(*tools, Some(program@)));
    let fixture = tools.check_file(program.as_str(), &JAVAC_ARGS, SELF_TEST_NAME, SELF_TEST_SOURCE);
    match fixture {
        Err(e) => {
            assert(javac_says(*tools, program@, SELF_TEST_NAME@, SELF_TEST_SOURCE@, Err(e)));
            return Err(io_only(e));
        },
        Ok(outcome) => {
            let ghost seen = outcome;
            let verdict = judge_self_test(program.as_str(), outcome);
            if verdict.is_err() {
                proof {
                    if let Outcome::Fail(message) = seen {
                        let p = "external verification cannot trust `"@;
                        let rest = distrust_head(program@).skip(p.len() as int) + message@;
                        assert(distrust_head(program@) + message@ =~= p + rest);
                        lemma_prefix_concat(p, rest);
                        assert(javac_says(
                            *tools,
                            program@,
                            SELF_TEST_NAME@,
                            SELF_TEST_SOURCE@,
                            Ok(Outcome::Fail(message)),
                        ));
                    }
                }
                return verdict;
            }
            assert(seen is Pass);
            assert(javac_says(*tools, program@, SELF_TEST_NAME@, SELF_TEST_SOURCE@, Ok(Outcome::Pass)));
        },
    }
    let first = tools.check_file(program.as_str(), &JAVAC_ARGS, ORIGINAL_NAME, original);
    let outcome = match first {
        Err(e) => {
            assert(javac_says(*tools, program@, ORIGINAL_NAME@, original@, Err(e)));
            return Err(io_only(e));
        },
        Ok(outcome) => outcome,
    };
    let ghost before = outcome;
    if settled_by_original(&outcome) {
        proof {
            if let Outcome::Fail(m) = before {
                assert(javac_says(*tools, program@, ORIGINAL_NAME@, original@, Ok(Outcome::Fail(m))));
            }
        }
        return Ok(());
    }
    assert(javac_says(*tools, program@, ORIGINAL_NAME@, original@, Ok(Outcome::Pass)));
    let second = tools.check_file(program.as_str(), &JAVAC_ARGS, FORMATTED_NAME, code);
    match second {
        Err(e) => {
            assert(javac_says(*tools, program@, FORMATTED_NAME@, code@, Err(e)));
            Err(io_only(e))
        },
        Ok(outcome) => {
            let ghost seen = outcome;
            let r = judge_output(program.as_str(), outcome);
            proof {
                if let Outcome::Fail(message) = seen {
                    let p = "external check failed ("@;
                    let rest = program@ + " -XDshould-stop.ifNoError=PARSE): "@ + message@;
                    assert(p + program@ + " -XDshould-stop.ifNoError=PARSE): "@ + message@ =~= p
                        + rest);
                    lemma_prefix_concat(p, rest);
                    assert(javac_says(
                        *tools,
                        program@,
                        FORMATTED_NAME@,
                        code@,
                        Ok(Outcome::Fail(message)),
                    ));
                } else {
                    assert(javac_says(*tools, program@, FORMATTED_NAME@, code@, Ok(Outcome::Pass)));
                }
            }
            r
        },
    }
}

} // verus!
