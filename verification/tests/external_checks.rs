use std::cell::RefCell;
use std::collections::VecDeque;

use tokenpress::error::Error;
use tokenpress::external::{Outcome, Tools};
use tokenpress::go::external::{check as go_check, GOFMT_PROBE_ARGS};
use tokenpress::java::external::{check as java_check, JAVAC_PROBE_ARGS, SELF_TEST_SOURCE};
use tokenpress::java::policy::is_semantic_comment as java_is_semantic;
use tokenpress::js::external::check as js_check;
use tokenpress::external::settled_by_original;
use tokenpress::go::external::located as go_located;
use tokenpress::java::external::located as java_located;
use tokenpress::js::external::{choose_checker, Dialect, NODE_ARGS, TSC_ARGS};

/// One recorded run: the program, its arguments, the scratch path and what
/// was written there.
#[derive(Clone, Debug)]
struct Call {
    program: String,
    args: Vec<String>,
    file: String,
    contents: String,
}

/// Tools with a scripted PATH and scripted verdicts. Files are kept in
/// memory under `scratch/<name>`.
struct FakeTools {
    available: &'static [&'static str],
    verdicts: RefCell<VecDeque<Result<Outcome, Error>>>,
    files: RefCell<Vec<(String, String)>>,
    calls: RefCell<Vec<Call>>,
    probes: RefCell<Vec<Vec<String>>>,
}

impl FakeTools {
    fn new(available: &'static [&'static str], verdicts: Vec<Result<Outcome, Error>>) -> Self {
        Self {
            available,
            verdicts: RefCell::new(verdicts.into()),
            files: RefCell::new(Vec::new()),
            calls: RefCell::new(Vec::new()),
            probes: RefCell::new(Vec::new()),
        }
    }

    fn calls(&self) -> Vec<Call> {
        self.calls.borrow().clone()
    }
}

impl Tools for FakeTools {
    fn locate(&self, candidates: &[&str], probe: &[&str]) -> Option<String> {
        self.probes
            .borrow_mut()
            .push(probe.iter().map(|a| (*a).to_string()).collect());
        candidates
            .iter()
            .find(|name| self.available.contains(*name))
            .map(|name| (*name).to_string())
    }

    fn check_file(
        &self,
        program: &str,
        args: &[&str],
        name: &str,
        contents: &str,
    ) -> Result<Outcome, Error> {
        let file = self.write(name, contents)?;
        self.run(program, args, &file)
    }
}

impl FakeTools {
    fn write(&self, name: &str, contents: &str) -> Result<String, Error> {
        let path = format!("scratch/{name}");
        self.files
            .borrow_mut()
            .push((path.clone(), contents.to_string()));
        Ok(path)
    }

    fn run(&self, program: &str, args: &[&str], file: &str) -> Result<Outcome, Error> {
        let contents = self
            .files
            .borrow()
            .iter()
            .rev()
            .find(|(path, _)| path == file)
            .map(|(_, c)| c.clone())
            .expect("the checker's input must exist");
        self.calls.borrow_mut().push(Call {
            program: program.to_string(),
            args: args.iter().map(|a| (*a).to_string()).collect(),
            file: file.to_string(),
            contents,
        });
        self.verdicts
            .borrow_mut()
            .pop_front()
            .expect("more checker runs than the test scripted")
    }
}

fn pass() -> Result<Outcome, Error> {
    Ok(Outcome::Pass)
}

fn fail(message: &str) -> Result<Outcome, Error> {
    Ok(Outcome::Fail(message.to_string()))
}

fn spawn_failed() -> Result<Outcome, Error> {
    Err(Error::Io("spawn failed".to_string()))
}

const GO_VALID: &str = "package main\n\nfunc main() {}\n";
const GO_FORMATTED: &str = "package main\nfunc main() {}\n";

#[test]
fn no_gofmt_on_path_is_an_error_naming_the_tool() {
    let tools = FakeTools::new(&[], vec![]);
    let err = go_check(&tools, GO_VALID, GO_FORMATTED).unwrap_err();
    assert!(matches!(err, Error::Verification(_)), "{err:?}");
    let message = err.to_string();
    assert!(message.contains("gofmt"), "{message}");
    assert!(message.contains("PATH"), "{message}");
    assert!(tools.calls().is_empty());
}

#[test]
fn gofmt_sees_the_original_first_and_then_the_output() {
    let tools = FakeTools::new(&["gofmt"], vec![pass(), pass()]);
    go_check(&tools, GO_VALID, GO_FORMATTED).unwrap();
    let calls = tools.calls();
    assert_eq!(calls.len(), 2);
    for call in &calls {
        assert_eq!(call.program, "gofmt");
        assert_eq!(call.args, ["-e"]);
        assert!(call.file.ends_with(".go"), "{call:?}");
        assert!(call.file.starts_with("scratch/"), "{call:?}");
    }
    assert_eq!(calls[0].contents, GO_VALID);
    assert_eq!(calls[1].contents, GO_FORMATTED);
    assert_ne!(calls[0].file, calls[1].file);
}

#[test]
fn external_output_that_fails_the_external_check_is_rejected() {
    let tools = FakeTools::new(
        &["gofmt"],
        vec![pass(), fail("a.go:3:15: expected ';', found 'EOF'")],
    );
    let err = go_check(&tools, GO_VALID, "package main\nfunc main() {\n").unwrap_err();
    assert!(matches!(err, Error::Verification(_)), "{err:?}");
    let message = err.to_string();
    assert!(message.contains("gofmt -e"), "{message}");
    assert!(message.contains("expected ';', found 'EOF'"), "{message}");
}

#[test]
fn external_an_original_that_already_fails_is_not_blamed_on_the_formatter() {
    let tools = FakeTools::new(&["gofmt"], vec![fail("a.go:1:1: expected 'package'")]);
    go_check(&tools, "\n\n// note\n", "// note\n").unwrap();
    assert_eq!(tools.calls().len(), 1);
}

#[test]
fn external_a_checker_that_cannot_be_spawned_is_an_error() {
    let tools = FakeTools::new(&["gofmt"], vec![spawn_failed()]);
    let err = go_check(&tools, GO_VALID, GO_FORMATTED).unwrap_err();
    assert!(matches!(err, Error::Io(_)), "{err:?}");
    assert!(err.to_string().contains("spawn failed"), "{err:?}");
}

#[test]
fn the_probe_is_the_help_flag_and_never_a_bare_invocation() {
    assert_eq!(GOFMT_PROBE_ARGS, ["-h"]);
    assert!(!GOFMT_PROBE_ARGS.is_empty());
}

const JAVA_VALID: &str = "public class A {\n\n    int f(int a) {\n        return a;\n    }\n}\n";
const JAVA_FORMATTED: &str = "public class A {\nint f(int a) {\nreturn a;\n}\n}\n";
const JAVA_BROKEN: &str = "public class A {\n    int f(int a) {\n";

#[test]
fn no_javac_on_path_is_an_error_naming_the_tool() {
    let tools = FakeTools::new(&[], vec![]);
    let err = java_check(&tools, JAVA_VALID, JAVA_FORMATTED).unwrap_err();
    assert!(matches!(err, Error::Verification(_)), "{err:?}");
    let message = err.to_string();
    assert!(message.contains("javac"), "{message}");
    assert!(message.contains("PATH"), "{message}");
    assert!(tools.calls().is_empty());
}

#[test]
fn javac_sees_the_self_test_then_the_original_then_the_output() {
    let tools = FakeTools::new(&["javac"], vec![pass(), pass(), pass()]);
    java_check(&tools, JAVA_VALID, JAVA_FORMATTED).unwrap();
    let calls = tools.calls();
    assert_eq!(calls.len(), 3);
    for call in &calls {
        assert_eq!(call.program, "javac");
        assert_eq!(call.args, ["-XDshould-stop.ifNoError=PARSE"]);
        assert!(call.file.ends_with(".java"), "{call:?}");
    }
    assert_eq!(calls[0].contents, SELF_TEST_SOURCE);
    assert_eq!(calls[1].contents, JAVA_VALID);
    assert_eq!(calls[2].contents, JAVA_FORMATTED);
    assert_ne!(calls[0].file, calls[1].file);
    assert_ne!(calls[1].file, calls[2].file);
}

#[test]
fn a_self_test_the_jdk_fails_stops_the_gate_naming_the_option() {
    let tools = FakeTools::new(
        &["javac"],
        vec![fail(
            "selftest.java:1: error: package com.example does not exist",
        )],
    );
    let err = java_check(&tools, JAVA_VALID, JAVA_FORMATTED).unwrap_err();
    assert!(matches!(err, Error::Verification(_)), "{err:?}");
    let message = err.to_string();
    assert!(message.contains("-XDshould-stop.ifNoError=PARSE"), "{message}");
    assert!(message.contains("self-test"), "{message}");
    assert!(message.contains("does not exist"), "{message}");
    assert_eq!(tools.calls().len(), 1);
}

#[test]
fn output_that_fails_the_external_check_is_rejected() {
    let tools = FakeTools::new(
        &["javac"],
        vec![
            pass(),
            pass(),
            fail("formatted.java:2: error: reached end of file while parsing"),
        ],
    );
    let err = java_check(&tools, JAVA_VALID, JAVA_BROKEN).unwrap_err();
    assert!(matches!(err, Error::Verification(_)), "{err:?}");
    let message = err.to_string();
    assert!(message.contains("javac -XDshould-stop.ifNoError=PARSE"), "{message}");
    assert!(message.contains("reached end of file while parsing"), "{message}");
}

#[test]
fn an_original_that_already_fails_is_not_blamed_on_the_formatter() {
    let tools = FakeTools::new(
        &["javac"],
        vec![
            pass(),
            fail("original.java:1: error: integer number too large"),
        ],
    );
    java_check(
        &tools,
        "class A {\n    long x = 99999999999;\n}\n",
        "class A {\nlong x = 99999999999;\n}\n",
    )
    .unwrap();
    assert_eq!(tools.calls().len(), 2);
}

#[test]
fn a_checker_that_cannot_be_spawned_is_an_error() {
    let tools = FakeTools::new(&["javac"], vec![spawn_failed()]);
    let err = java_check(&tools, JAVA_VALID, JAVA_FORMATTED).unwrap_err();
    assert!(matches!(err, Error::Io(_)), "{err:?}");
    assert!(err.to_string().contains("spawn failed"), "{err:?}");
}

#[test]
fn the_probe_is_the_version_flag() {
    assert_eq!(JAVAC_PROBE_ARGS, ["-version"]);
    assert!(!JAVAC_PROBE_ARGS.is_empty());
}

#[test]
fn no_java_comment_is_semantic() {
    for comment in [
        &b"// an ordinary note"[..],
        b"/** Javadoc. */",
        b"/* a block comment */",
        b"//",
    ] {
        let text = String::from_utf8_lossy(comment);
        assert!(!java_is_semantic(comment), "{text}");
    }
}

#[test]
fn no_checker_on_path_is_an_error_naming_both_tools() {
    let tools = FakeTools::new(&[], vec![]);
    let err = js_check(&tools, "a.js", "const a = 1;\n", "const a=1;").unwrap_err();
    assert!(matches!(err, Error::Verification(_)), "{err:?}");
    let message = err.to_string();
    assert!(message.contains("tsc"), "{message}");
    assert!(message.contains("node"), "{message}");
    assert!(tools.calls().is_empty());
}

#[test]
fn tsc_is_preferred_and_sees_the_original_then_the_output() {
    let tools = FakeTools::new(&["tsc", "node"], vec![pass(), pass()]);
    js_check(
        &tools,
        "src/a.ts",
        "const a: number = 1;\n",
        "const a:number=1;",
    )
    .unwrap();
    let calls = tools.calls();
    assert_eq!(calls.len(), 2);
    for call in &calls {
        assert_eq!(call.program, "tsc");
        assert_eq!(
            call.args,
            [
                "--noEmit",
                "--noCheck",
                "--skipLibCheck",
                "--allowJs",
                "--jsx",
                "preserve"
            ]
        );
        assert!(call.file.ends_with(".ts"), "{call:?}");
        assert_ne!(call.file, "src/a.ts");
    }
    assert_eq!(calls[0].contents, "const a: number = 1;\n");
    assert_eq!(calls[1].contents, "const a:number=1;");
}

#[test]
fn node_is_the_fallback_for_the_dialects_it_understands() {
    for name in ["a.js", "a.mjs", "a.cjs"] {
        let tools = FakeTools::new(&["node"], vec![pass(), pass()]);
        js_check(&tools, name, "const a = 1;\n", "const a=1;").unwrap();
        let calls = tools.calls();
        assert_eq!(calls.len(), 2, "{name}");
        assert_eq!(calls[0].program, "node");
        assert_eq!(calls[0].args, ["--check"]);
        let ext = name.rsplit('.').next().unwrap();
        assert_eq!(calls[0].file.rsplit('.').next().unwrap(), ext, "{name}");
    }
}

#[test]
fn node_alone_cannot_check_the_typescript_and_jsx_dialects() {
    for name in ["a.jsx", "a.ts", "a.mts", "a.cts", "a.tsx"] {
        let tools = FakeTools::new(&["node"], vec![]);
        let err = js_check(&tools, name, "const a = 1;\n", "const a=1;").unwrap_err();
        let message = err.to_string();
        assert!(message.contains("tsc"), "{name}: {message}");
        assert!(
            message.contains(name.rsplit('.').next().unwrap()),
            "{message}"
        );
        assert!(tools.calls().is_empty(), "{name}");
    }
}

#[test]
fn the_windows_npm_shim_is_probed_after_the_bare_name() {
    let tools = FakeTools::new(&["tsc.cmd"], vec![pass(), pass()]);
    js_check(&tools, "a.tsx", "const a = <p/>;\n", "const a=<p/>;").unwrap();
    assert_eq!(tools.calls()[0].program, "tsc.cmd");
}

#[test]
fn js_output_that_fails_the_external_check_is_rejected() {
    let tools = FakeTools::new(
        &["node"],
        vec![pass(), fail("SyntaxError: Unexpected token")],
    );
    let err = js_check(&tools, "a.js", "const a = 1;\n", "const a=;").unwrap_err();
    assert!(matches!(err, Error::Verification(_)), "{err:?}");
    let message = err.to_string();
    assert!(message.contains("node"), "{message}");
    assert!(message.contains("SyntaxError: Unexpected token"), "{message}");
}

#[test]
fn js_an_original_that_already_fails_is_not_blamed_on_the_formatter() {
    let tools = FakeTools::new(&["node"], vec![fail("SyntaxError: in the input")]);
    js_check(&tools, "a.js", "const a = 1;\n", "const a=1;").unwrap();
    assert_eq!(tools.calls().len(), 1);
}

#[test]
fn js_a_checker_that_cannot_be_spawned_is_an_error() {
    let tools = FakeTools::new(&["node"], vec![spawn_failed()]);
    let err = js_check(&tools, "a.js", "const a = 1;\n", "const a=1;").unwrap_err();
    assert!(matches!(err, Error::Io(_)), "{err:?}");
    assert!(err.to_string().contains("spawn failed"), "{err:?}");
}

#[test]
fn an_extension_that_maps_to_no_dialect_is_refused() {
    let tools = FakeTools::new(&["tsc"], vec![]);
    for name in ["notes.txt", "noextension"] {
        let err = js_check(&tools, name, "const a = 1;\n", "const a=1;").unwrap_err();
        assert_eq!(
            err.to_string(),
            format!("unsupported language for path: {name}")
        );
    }
}

#[test]
fn every_checker_is_probed_with_its_own_harmless_flag() {
    let tools = FakeTools::new(&["gofmt"], vec![pass(), pass()]);
    go_check(&tools, "package main\n", "package main\n").unwrap();
    assert_eq!(tools.probes.borrow().clone(), vec![vec!["-h".to_string()]]);

    let tools = FakeTools::new(&[], vec![]);
    let _ = java_check(&tools, "class A {}\n", "class A {}\n");
    assert_eq!(tools.probes.borrow().clone(), vec![vec!["-version".to_string()]]);

    let tools = FakeTools::new(&[], vec![]);
    let _ = js_check(&tools, "a.js", "x;\n", "x;\n");
    assert_eq!(
        tools.probes.borrow().clone(),
        vec![vec!["--version".to_string()], vec!["--version".to_string()]]
    );
}

#[test]
fn the_checker_is_tsc_first_then_node_for_a_dialect_node_reads() {
    let js = Dialect { extension: "js", node_checkable: true };
    let ts = Dialect { extension: "ts", node_checkable: false };
    let c = choose_checker(js, Some("/bin/tsc".to_string()), Some("/bin/node".to_string())).unwrap();
    assert_eq!(c.program, "/bin/tsc");
    assert_eq!(c.args, &TSC_ARGS[..]);
    let c = choose_checker(js, None, Some("/bin/node".to_string())).unwrap();
    assert_eq!(c.program, "/bin/node");
    assert_eq!(c.args, &NODE_ARGS[..]);
    let c = choose_checker(ts, Some("/bin/tsc".to_string()), None).unwrap();
    assert_eq!(c.program, "/bin/tsc");
    let err = choose_checker(js, None, None).unwrap_err();
    assert_eq!(
        err.to_string(),
        "verification failed: external verification needs `tsc` or `node` on PATH: neither was found"
    );
    // node is never the checker of a dialect it cannot read, even when found.
    let err = choose_checker(ts, None, Some("/bin/node".to_string())).unwrap_err();
    assert_eq!(
        err.to_string(),
        "verification failed: external verification of a .ts file needs `tsc` on PATH: it was not found, and the `node --check` fallback reads only .js, .mjs and .cjs"
    );
}

#[test]
fn a_located_tool_is_used_and_a_missing_one_is_named() {
    assert_eq!(go_located(Some("/usr/bin/gofmt".to_string())).unwrap(), "/usr/bin/gofmt");
    assert_eq!(
        go_located(None).unwrap_err().to_string(),
        "verification failed: external verification needs `gofmt` on PATH: it was not found"
    );
    assert_eq!(java_located(Some("/opt/javac".to_string())).unwrap(), "/opt/javac");
    let err = java_located(None).unwrap_err();
    assert!(matches!(err, Error::Verification(_)), "{err:?}");
    assert!(err.to_string().contains("`javac`"), "{err:?}");
}

#[test]
fn only_a_failing_original_settles_the_check() {
    assert!(settled_by_original(&Outcome::Fail("bad".to_string())));
    assert!(!settled_by_original(&Outcome::Pass));
}
