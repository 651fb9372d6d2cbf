use std::cell::RefCell;
use std::collections::VecDeque;

use tokenpress::csharp::external::{
    check, diagnostic_codes, difference, sdk_compilers, Compiler, CscTools, ORIGINAL_NAME,
    FORMATTED_NAME, SELF_TEST_CODES, SELF_TEST_MINIMIZED, SELF_TEST_MINIMIZED_NAME,
    SELF_TEST_NAME, SELF_TEST_SOURCE,
};
use tokenpress::csharp::{CSharpFormatter, CSharpOptions};
use tokenpress::options::VerifyLevel;
use tokenpress::error::Error;
use tokenpress::formatter::Formatter;
use tokenpress::options::FormatOptions;
use tokenpress::csharp::external::{judge_reports, judge_self_test_file, judge_self_test_pair, Report};

/// One recorded run: the scratch name and what was written there.
#[derive(Clone, Debug)]
struct Call {
    name: String,
    contents: String,
}

/// Compiler tools with a scripted SDK and scripted output.
struct FakeTools {
    available: &'static [&'static str],
    outputs: RefCell<VecDeque<Result<String, Error>>>,
    files: RefCell<Vec<(String, String)>>,
    calls: RefCell<Vec<Call>>,
}

impl FakeTools {
    fn new(available: &'static [&'static str], outputs: Vec<Result<String, Error>>) -> Self {
        Self {
            available,
            outputs: RefCell::new(outputs.into()),
            files: RefCell::new(Vec::new()),
            calls: RefCell::new(Vec::new()),
        }
    }

    fn calls(&self) -> Vec<Call> {
        self.calls.borrow().clone()
    }
}

impl CscTools for FakeTools {
    fn locate(&self, candidates: &[&str]) -> Option<Compiler> {
        candidates
            .iter()
            .find(|name| self.available.contains(*name))
            .map(|name| Compiler {
                program: (*name).to_string(),
                csc: "sdk/csc.dll".to_string(),
            })
    }

    fn compile(&self, compiler: &Compiler, name: &str, contents: &str) -> Result<String, Error> {
        self.write(name, contents)?;
        self.run(compiler, name)
    }
}

impl FakeTools {
    fn write(&self, name: &str, contents: &str) -> Result<(), Error> {
        self.files
            .borrow_mut()
            .push((name.to_string(), contents.to_string()));
        Ok(())
    }

    fn run(&self, _compiler: &Compiler, name: &str) -> Result<String, Error> {
        let contents = self
            .files
            .borrow()
            .iter()
            .rev()
            .find(|(n, _)| n == name)
            .map(|(_, c)| c.clone())
            .expect("the checker's input must exist");
        self.calls.borrow_mut().push(Call {
            name: name.to_string(),
            contents,
        });
        self.outputs
            .borrow_mut()
            .pop_front()
            .expect("more checker runs than the test scripted")
    }
}

/// Scripted compiler output carrying these codes.
fn reports(codes: &[&str]) -> Result<String, Error> {
    Ok(codes
        .iter()
        .map(|c| format!("a.cs(1,1): error {c}: something"))
        .collect::<Vec<_>>()
        .join("\n"))
}

fn self_test_passes() -> Result<String, Error> {
    reports(&SELF_TEST_CODES)
}

const VALID: &str = "public class A\n{\n\n    int F(int a)\n    {\n        return a;\n    }\n}\n";
const FORMATTED: &str = "public class A\n{\nint F(int a)\n{\nreturn a;\n}\n}\n";
const BROKEN: &str = "public class A\n{\nint F( { return 1; }\n}\n";

#[test]
fn no_dotnet_on_path_is_an_error_naming_the_tool() {
    let tools = FakeTools::new(&[], vec![]);
    let err = check(&tools, VALID, FORMATTED).unwrap_err();
    assert!(matches!(err, Error::Verification(_)), "{err:?}");
    let message = err.to_string();
    assert!(message.contains("dotnet"), "{message}");
    assert!(message.contains("PATH"), "{message}");
    assert!(tools.calls().is_empty());
}

#[test]
fn csc_sees_the_self_test_pair_then_the_original_then_the_output() {
    let tools = FakeTools::new(
        &["dotnet"],
        vec![
            self_test_passes(),
            self_test_passes(),
            reports(&["CS0518"]),
            reports(&["CS0518"]),
        ],
    );
    check(&tools, VALID, FORMATTED).unwrap();
    let calls = tools.calls();
    assert_eq!(calls.len(), 4);
    for call in &calls {
        assert!(call.name.ends_with(".cs"), "{call:?}");
    }
    assert_eq!(calls[0].name, SELF_TEST_NAME);
    assert_eq!(calls[0].contents, SELF_TEST_SOURCE);
    assert_eq!(calls[1].name, SELF_TEST_MINIMIZED_NAME);
    assert_eq!(calls[1].contents, SELF_TEST_MINIMIZED);
    assert_eq!(calls[2].name, ORIGINAL_NAME);
    assert_eq!(calls[2].contents, VALID);
    assert_eq!(calls[3].name, FORMATTED_NAME);
    assert_eq!(calls[3].contents, FORMATTED);
}

#[test]
fn a_self_test_whose_codes_were_not_extracted_stops_the_gate() {
    let tools = FakeTools::new(&["dotnet"], vec![reports(&[])]);
    let err = check(&tools, VALID, FORMATTED).unwrap_err();
    assert!(matches!(err, Error::Verification(_)), "{err:?}");
    let message = err.to_string();
    assert!(message.contains("self-test"), "{message}");
    assert!(message.contains("CS0246"), "{message}");
    assert!(message.contains("csc.dll"), "{message}");
    assert_eq!(tools.calls().len(), 1);
}

#[test]
fn a_self_test_whose_noise_stopped_cancelling_stops_the_gate() {
    let tools = FakeTools::new(
        &["dotnet"],
        vec![self_test_passes(), reports(&["CS0246", "CS0518"])],
    );
    let err = check(&tools, VALID, FORMATTED).unwrap_err();
    assert!(matches!(err, Error::Verification(_)), "{err:?}");
    let message = err.to_string();
    assert!(message.contains("self-test"), "{message}");
    assert!(message.contains("cancel"), "{message}");
    assert_eq!(tools.calls().len(), 2);
}

#[test]
fn output_whose_diagnostics_differ_is_rejected() {
    let tools = FakeTools::new(
        &["dotnet"],
        vec![
            self_test_passes(),
            self_test_passes(),
            reports(&["CS0518"]),
            reports(&["CS1026"]),
        ],
    );
    let err = check(&tools, VALID, BROKEN).unwrap_err();
    assert!(matches!(err, Error::Verification(_)), "{err:?}");
    let message = err.to_string();
    assert!(message.contains("external check failed"), "{message}");
    assert!(message.contains("+1 CS1026"), "{message}");
    assert!(message.contains("-1 CS0518"), "{message}");
    assert!(message.contains("error CS1026"), "{message}");
}

#[test]
fn an_original_the_checker_already_rejects_is_not_blamed_on_the_formatter() {
    let tools = FakeTools::new(
        &["dotnet"],
        vec![
            self_test_passes(),
            self_test_passes(),
            reports(&["CS1021"]),
            reports(&["CS1021"]),
        ],
    );
    check(
        &tools,
        "class Big\n{\n    long  x  =  99999999999999999999999;\n}\n",
        "class Big\n{\nlong x = 99999999999999999999999;\n}\n",
    )
    .unwrap();
    assert_eq!(tools.calls().len(), 4);
}

#[test]
fn csharp_a_checker_that_cannot_be_spawned_is_an_error() {
    let tools = FakeTools::new(
        &["dotnet"],
        vec![Err(Error::Io("spawn failed".to_string()))],
    );
    let err = check(&tools, VALID, FORMATTED).unwrap_err();
    assert!(matches!(err, Error::Io(_)), "{err:?}");
    assert!(err.to_string().contains("spawn failed"), "{err:?}");
}

#[test]
fn diagnostic_codes_are_a_multiset_with_positions_discarded() {
    let before = "a.cs(1,7): error CS0246: nope\na.cs(9,3): error CS0518: nope\n";
    let after = "a.cs(4,1): error CS0518: nope\na.cs(1,7): error CS0246: nope\n";
    assert_eq!(diagnostic_codes(before), ["CS0246", "CS0518"]);
    assert_eq!(diagnostic_codes(before), diagnostic_codes(after));
    let twice = "a.cs(1,1): error CS0518: nope\na.cs(2,2): error CS0518: nope\n";
    assert_eq!(diagnostic_codes(twice), ["CS0518", "CS0518"]);
}

#[test]
fn diagnostic_codes_read_errors_only_and_skip_what_they_cannot_parse() {
    let output = "warning CS8021: No value for RuntimeMetadataVersion found.\n\
                  error CS0518: Predefined type 'System.Object' is not defined\n\
                  note: error CSnope\n\
                  \n";
    assert_eq!(diagnostic_codes(output), ["CS0518"]);
    assert!(diagnostic_codes("").is_empty());
}

#[test]
fn sdk_compilers_reads_the_list_sdks_listing() {
    let listing = "8.0.129 [/usr/lib/dotnet/sdk]\n9.0.100 [/usr/lib/dotnet/sdk]\r\n";
    let found = sdk_compilers(listing);
    assert_eq!(found.len(), 2);
    assert!(found[0].ends_with("8.0.129/Roslyn/bincore/csc.dll"));
    assert!(found[1].starts_with("/usr/lib/dotnet/sdk"));
    assert!(found[1].ends_with("9.0.100/Roslyn/bincore/csc.dll"));
    let windows = sdk_compilers("8.0.404 [C:\\Program Files\\dotnet\\sdk]\n");
    assert_eq!(windows.len(), 1);
    assert!(
        windows[0].contains("C:\\Program Files\\dotnet\\sdk"),
        "{windows:?}"
    );
    assert!(sdk_compilers("").is_empty());
    assert!(sdk_compilers("No SDKs were found.\n").is_empty());
    assert!(sdk_compilers("8.0.129 [/usr/lib/dotnet/sdk\n").is_empty());
}

#[test]
fn difference_names_what_the_candidate_gained_and_lost() {
    let one = vec!["CS0246".to_string()];
    let other = vec!["CS1026".to_string()];
    assert_eq!(difference(&one, &other), ["+1 CS1026", "-1 CS0246"]);
    assert_eq!(difference(&vec![], &other), ["+1 CS1026"]);
    assert_eq!(difference(&one, &vec![]), ["-1 CS0246"]);
    let twice = vec!["CS0518".to_string(), "CS0518".to_string()];
    let once = vec!["CS0518".to_string()];
    assert_eq!(difference(&twice, &once), ["-1 CS0518"]);
    assert!(difference(&twice, &twice).is_empty());
}

#[test]
fn the_self_test_pair_is_this_backends_own_output() {
    let produced = CSharpFormatter::default()
        .format("Probe.cs", SELF_TEST_SOURCE, &FormatOptions::default())
        .unwrap();
    assert_eq!(produced.code, SELF_TEST_MINIMIZED);
}

#[test]
fn difference_counts_every_code_over_both_lists() {
    let before = vec!["CS0518".to_string(), "CS0246".to_string()];
    let after = vec![
        "CS1026".to_string(),
        "CS0518".to_string(),
        "CS0518".to_string(),
    ];
    assert_eq!(
        difference(&before, &after),
        ["+1 CS0518", "+1 CS1026", "-1 CS0246"]
    );
}

fn report(codes: &[&str], text: &str) -> Report {
    Report {
        codes: codes.iter().map(|c| c.to_string()).collect(),
        text: text.to_string(),
    }
}

#[test]
fn the_self_test_file_is_trusted_only_when_every_expected_code_was_read() {
    assert!(judge_self_test_file("dotnet csc.dll", &report(&["CS0246", "CS0518", "CS0656"], "")).is_ok());
    assert!(judge_self_test_file("dotnet csc.dll", &report(&["CS0656", "CS0001", "CS0518", "CS0246"], "")).is_ok());
    let err = judge_self_test_file("dotnet csc.dll", &report(&[], "no output")).unwrap_err();
    assert!(matches!(err, Error::Verification(_)), "{err:?}");
    assert_eq!(
        err.to_string(),
        "verification failed: external verification cannot trust `dotnet csc.dll`: its self-test file \u{2014} valid C# in which nothing resolves \u{2014} was expected to report CS0246 CS0518 CS0656 and reported  instead, so this SDK's diagnostics are no longer being read and every file would compare equal to every other: no output"
    );
    let err = judge_self_test_file("csc", &report(&["CS0246", "CS0518"], "t")).unwrap_err();
    assert!(err.to_string().contains("reported CS0246 CS0518 instead"), "{err:?}");
}

#[test]
fn the_self_test_pair_must_report_the_same_codes() {
    let before = report(&["CS0246", "CS0518", "CS0656"], "b");
    assert!(judge_self_test_pair("csc", &before, &report(&["CS0246", "CS0518", "CS0656"], "a")).is_ok());
    let err = judge_self_test_pair("csc", &before, &report(&["CS0246"], "after text")).unwrap_err();
    assert_eq!(
        err.to_string(),
        "verification failed: external verification cannot trust `csc`: its self-test pair \u{2014} the same file before and after this backend's own minimization \u{2014} reported CS0246 CS0518 CS0656 and CS0246, so the semantic noise this check relies on cancelling no longer cancels: after text"
    );
}

#[test]
fn the_reports_are_accepted_exactly_when_their_codes_agree() {
    assert!(judge_reports("csc", &report(&["CS0246", "CS0246"], ""), &report(&["CS0246", "CS0246"], "")).is_ok());
    assert!(judge_reports("csc", &report(&[], ""), &report(&[], "")).is_ok());
    let err = judge_reports("csc", &report(&["CS0246"], ""), &report(&["CS1002", "CS0246"], "x.cs(1,1): error CS1002")).unwrap_err();
    assert!(matches!(err, Error::Verification(_)), "{err:?}");
    assert_eq!(
        err.to_string(),
        "verification failed: external check failed (csc): `csc` reports different diagnostics for the output than for the input (+1 CS1002), so formatting changed what the compiler sees: x.cs(1,1): error CS1002"
    );
}

#[test]
fn the_external_level_runs_csc_after_the_built_in_check() {
    let tools = FakeTools::new(
        &["dotnet"],
        vec![
            self_test_passes(),
            self_test_passes(),
            reports(&["CS0246"]),
            reports(&["CS0246"]),
        ],
    );
    let formatter = CSharpFormatter::with_tools(CSharpOptions::default(), tools);
    let options = FormatOptions {
        verify: VerifyLevel::External,
        ..FormatOptions::default()
    };
    let r = formatter.format("A.cs", VALID, &options).unwrap();
    assert_eq!(r.code, FORMATTED);
}

#[test]
fn the_external_level_refuses_output_csc_reads_differently() {
    let tools = FakeTools::new(
        &["dotnet"],
        vec![
            self_test_passes(),
            self_test_passes(),
            reports(&[]),
            reports(&["CS1002"]),
        ],
    );
    let formatter = CSharpFormatter::with_tools(CSharpOptions::default(), tools);
    let options = FormatOptions {
        verify: VerifyLevel::External,
        ..FormatOptions::default()
    };
    let err = formatter.format("A.cs", VALID, &options).unwrap_err();
    assert!(matches!(err, Error::Verification(_)), "{err:?}");
    assert!(err.to_string().contains("+1 CS1002"), "{err:?}");
}
