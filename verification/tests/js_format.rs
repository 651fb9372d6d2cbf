use tokenpress::error::Error;
use tokenpress::external::{NoToolchain, Outcome, Tools};
use tokenpress::formatter::Formatter;
use tokenpress::js::verify::reparse;
use tokenpress::js::{JsFormatter, JsOptions};
use tokenpress::options::{FormatOptions, VerifyLevel};
fn fmt(name: &str, source: &str) -> String {
    fmt_with(name, source, JsOptions::default())
}

fn fmt_with(name: &str, source: &str, options: JsOptions) -> String {
    JsFormatter::new(options)
        .format(name, source, &FormatOptions::default())
        .unwrap()
        .code
}

#[test]
fn language_is_javascript() {
    assert_eq!(JsFormatter::default().language(), "javascript");
}

#[test]
fn supports_the_javascript_and_typescript_extensions() {
    let f = JsFormatter::default();
    for name in [
        "a.js", "a.mjs", "a.cjs", "a.jsx", "a.ts", "a.mts", "a.cts", "a.tsx", "a.d.ts",
    ] {
        assert!(f.supports(name), "{name} should be supported");
    }
    for name in ["a.py", "a.rs", "a.txt", "js", "a."] {
        assert!(!f.supports(name), "{name} should be rejected");
    }
}

#[test]
fn js01_minimizes_whitespace() {
    let source = "function add( a , b ) {\n    const sum = a + b;\n    return sum;\n}\n";
    assert_eq!(
        fmt("a.js", source),
        "function add(a,b){const sum=a+b;return sum}"
    );
}

#[test]
fn the_path_selects_the_typescript_dialect() {
    let source = "interface Shape {\n    name : string ;\n    size ?: number ;\n}\n";
    assert_eq!(
        fmt("a.ts", source),
        "interface Shape{name:string;size?:number;}"
    );
}

#[test]
fn jso1_keeps_leading_comments_by_default() {
    assert_eq!(
        fmt("a.js", "// note\nconst a = 1;\n"),
        "// note\nconst a=1;"
    );
}

#[test]
fn jso1_strips_comments_on_request() {
    assert_eq!(
        fmt_with(
            "a.js",
            "// note\nconst a = 1;\n",
            JsOptions {
                strip_comments: true
            }
        ),
        "const a=1;"
    );
}

#[test]
fn trailing_comments_are_dropped_even_when_kept() {
    // Pins the crate-level honesty claim: keeping comments does not keep
    // trailing ones.
    assert_eq!(
        fmt("a.js", "function f(a, b) {\n    return a + b; // tail\n}\n"),
        "function f(a,b){return a+b}"
    );
}

#[test]
fn lib_reparse_only_level_also_passes() {
    let opts = FormatOptions {
        verify: VerifyLevel::Reparse,
        ..FormatOptions::default()
    };
    let r = JsFormatter::default()
        .format("a.js", "const a = 1;\n", &opts)
        .unwrap();
    assert_eq!(r.code, "const a=1;");
}

#[test]
fn lib_ast_equiv_is_the_default_level() {
    let opts = FormatOptions {
        verify: VerifyLevel::AstEquiv,
        ..FormatOptions::default()
    };
    let r = JsFormatter::default()
        .format("a.js", "const a = 1 + 2;\n", &opts)
        .unwrap();
    assert_eq!(r.code, "const a=1+2;");
}

/// A toolchain that has `node` and accepts every file, recording what it was
/// asked to check.
struct AcceptingNode {
    checked: std::cell::RefCell<Vec<(String, String)>>,
    files: std::cell::RefCell<Vec<(String, String)>>,
}

impl Tools for AcceptingNode {
    fn locate(&self, candidates: &[&str], _probe: &[&str]) -> Option<String> {
        candidates
            .iter()
            .find(|name| **name == "node")
            .map(|name| (*name).to_string())
    }

    fn check_file(
        &self,
        program: &str,
        args: &[&str],
        name: &str,
        contents: &str,
    ) -> Result<Outcome, Error> {
        let file = self.write(name, contents)?;
        self.run(program, args, &file)
    }
}

impl AcceptingNode {
    fn write(&self, name: &str, contents: &str) -> Result<String, Error> {
        self.files
            .borrow_mut()
            .push((name.to_string(), contents.to_string()));
        Ok(name.to_string())
    }

    fn run(&self, program: &str, _args: &[&str], file: &str) -> Result<Outcome, Error> {
        let contents = self
            .files
            .borrow()
            .iter()
            .rev()
            .find(|(n, _)| n == file)
            .map(|(_, c)| c.clone())
            .unwrap();
        self.checked
            .borrow_mut()
            .push((program.to_string(), contents));
        Ok(Outcome::Pass)
    }
}

#[test]
fn external_level_adds_the_external_checker() {
    let opts = FormatOptions {
        verify: VerifyLevel::External,
        ..FormatOptions::default()
    };
    let tools = AcceptingNode {
        checked: std::cell::RefCell::new(Vec::new()),
        files: std::cell::RefCell::new(Vec::new()),
    };
    let formatter = JsFormatter::with_tools(JsOptions::default(), tools);
    let r = formatter.format("a.js", "const a = 1;\n", &opts).unwrap();
    assert_eq!(r.code, "const a=1;");
}

#[test]
fn external_level_without_a_checker_is_refused_naming_both() {
    let opts = FormatOptions {
        verify: VerifyLevel::External,
        ..FormatOptions::default()
    };
    let err = JsFormatter::default()
        .format("a.js", "const a = 1;\n", &opts)
        .unwrap_err();
    assert!(err.to_string().contains("tsc"), "{err:?}");
    assert!(err.to_string().contains("node"), "{err:?}");
}

#[test]
fn an_unsupported_extension_reaching_format_is_refused() {
    // `supports` is the caller's filter, but `parser::parse` is the
    // authority: a path it cannot map to a dialect is refused rather than
    // guessed at.
    let err = JsFormatter::default()
        .format(
            "notes.txt",
            "const a = 1;\n",
            &FormatOptions::default(),
        )
        .unwrap_err();
    assert_eq!(err.to_string(), "unsupported language for path: notes.txt");
}

#[test]
fn the_path_selects_the_jsx_dialect() {
    // One case for all of it: a fragment, a string attribute, an
    // expression-container attribute, a spread attribute, a nested
    // expression container — and JSX text (`text  here`) whose double
    // space survives while `const x = 1;` next to it is minimized.
    let source = "function App( p ) {\n    const x = 1;\n    return <>\n        <div a=\"1\" b={ x } { ...p }><span>text  here</span>{ x + 1 }</div>\n    </>;\n}\n";
    assert_eq!(
        fmt("a.jsx", source),
        "function App(p){const x=1;return<>\n        <div a=\"1\" b={x}{...p}><span>text  here</span>{x+1}</div>\n    </>}"
    );
}

#[test]
fn the_path_selects_the_tsx_dialect() {
    // TypeScript *and* JSX in one file: an interface, a return-type
    // annotation and a generic function whose `<T>` must be emitted as
    // `<T,>` to stay unambiguous against a JSX element.
    let source = "interface Props {\n    name : string ;\n}\n\nconst Greet = ( p : Props ) : JSX.Element => <span title={ p.name }>Hi, { p.name }!</span>;\n\nfunction List< T >( items : T[] ) {\n    return <ul>{ items.map( ( i ) => <li>{ String( i ) }</li> ) }</ul>;\n}\n";
    assert_eq!(
        fmt("a.tsx", source),
        "interface Props{name:string;}const Greet=(p:Props):JSX.Element=><span title={p.name}>Hi, {p.name}!</span>;function List<T,>(items:T[]){return<ul>{items.map(i=><li>{String(i)}</li>)}</ul>}"
    );
}

#[test]
fn jso1_empties_a_comment_only_container_when_stripping() {
    let source = "const a = <div>{/* c */}</div>;\n";
    // The default keeps it: a JSX expression container's leading comment
    // is one of the classes oxc_codegen preserves.
    assert_eq!(fmt("a.jsx", source), "const a=<div>{/* c */}</div>;");
    // Stripped, the container stays — `{}` is valid JSX and renders
    // exactly like `{/* c */}` did.
    assert_eq!(
        fmt_with(
            "a.jsx",
            source,
            JsOptions {
                strip_comments: true
            }
        ),
        "const a=<div>{}</div>;"
    );
}

#[test]
fn jsx_trailing_comments_are_dropped_even_when_kept() {
    // Pins the same reality as `trailing_comments_are_dropped_even_when_kept`
    // for JSX: the container's leading comment survives, a trailing one
    // inside a container does not.
    assert_eq!(
        fmt(
            "a.jsx",
            "const a = <div>\n  {/* keep */}\n  {x /* tail */}\n</div>;\n"
        ),
        "const a=<div>\n  {/* keep */}\n  {x}\n</div>;"
    );
}

#[test]
fn invalid_jsx_is_a_parse_error_and_yields_no_output() {
    let err = JsFormatter::default()
        .format(
            "broken.jsx",
            "const a = <div>hi;\n",
            &FormatOptions::default(),
        )
        .unwrap_err();
    assert!(matches!(err, Error::Parse(_)), "{err:?}");
    assert!(
        err.to_string().starts_with("parse error: broken.jsx:"),
        "{err:?}"
    );
}

#[test]
fn verify_reparse_accepts_valid_and_rejects_invalid_output() {
    assert!(reparse("a.js", "const a=1;").is_ok());
    let err = reparse("a.js", "function (").unwrap_err();
    assert!(err.to_string().contains("failed to re-parse"), "{err:?}");
}

#[test]
fn reparse_rejects_recoverable_errors_too() {
    let err = reparse("a.js", "return 1;").unwrap_err();
    assert!(err.to_string().contains("failed to re-parse"), "{err:?}");
}

#[test]
fn tsx_reparse_rejects_invalid_jsx_output() {
    let err = reparse("a.tsx", "const a=<div>hi;").unwrap_err();
    assert!(err.to_string().contains("failed to re-parse"), "{err:?}");
}

#[test]
fn reparse_refuses_a_path_that_selects_no_dialect() {
    let err = reparse("notes.txt", "x;").unwrap_err();
    assert_eq!(
        err.to_string(),
        "verification failed: output failed to re-parse: unsupported language for path: notes.txt"
    );
    let err = reparse("a.js", "let = ;").unwrap_err();
    assert!(err.to_string().starts_with("verification failed: output failed to re-parse: "));
}

#[test]
fn no_toolchain_finds_nothing_and_runs_nothing() {
    assert_eq!(NoToolchain.locate(&["node"], &["--version"]), None);
    match NoToolchain.check_file("node", &["--check"], "a.js", "x;") {
        Err(Error::Io(m)) => assert_eq!(m, "no checker can be started"),
        other => panic!("{other:?}"),
    }
}
