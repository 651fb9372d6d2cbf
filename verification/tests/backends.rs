use tokenpress::csharp::paths::supports_path as supports_cs;
use tokenpress::csharp::{CSharpFormatter, CSharpOptions};
use tokenpress::error::Error;
use tokenpress::formatter::Formatter;
use tokenpress::go::paths::supports_path as supports_go;
use tokenpress::go::{GoFormatter, GoOptions};
use tokenpress::java::paths::supports_path as supports_java;
use tokenpress::java::{JavaFormatter, JavaOptions};
use tokenpress::js::{JsFormatter, JsOptions};
use tokenpress::options::FormatOptions;
use tokenpress::tokenizer::TokenizerKind;

fn go(source: &str, strip_comments: bool) -> String {
    GoFormatter::new(GoOptions { strip_comments })
        .format("a.go", source, &FormatOptions::default())
        .unwrap()
        .code
}

fn java(source: &str, strip_comments: bool) -> String {
    JavaFormatter::new(JavaOptions { strip_comments })
        .format("A.java", source, &FormatOptions::default())
        .unwrap()
        .code
}

fn csharp(source: &str, strip_comments: bool) -> String {
    CSharpFormatter::new(CSharpOptions { strip_comments })
        .format("A.cs", source, &FormatOptions::default())
        .unwrap()
        .code
}

fn js(name: &str, source: &str) -> String {
    JsFormatter::new(JsOptions::default())
        .format(name, source, &FormatOptions::default())
        .unwrap()
        .code
}

fn assert_idempotent(format: fn(&str, bool) -> String, sources: &[&str]) {
    for source in sources {
        let once = format(source, false);
        assert_eq!(format(&once, false), once, "not idempotent for {source:?}");
        let once_stripped = format(source, true);
        assert_eq!(
            format(&once_stripped, true),
            once_stripped,
            "not idempotent when stripping for {source:?}"
        );
    }
}

#[test]
fn lib_token_counts_are_reported() {
    let results = [
        GoFormatter::default()
            .format(
                "a.go",
                "package main\n\nfunc main() {\n\tx := 1\n\t_ = x\n}\n",
                &FormatOptions::default(),
            )
            .unwrap(),
        JavaFormatter::default()
            .format(
                "A.java",
                "public class A {\n    /** Doc. */\n    public int x() {\n        return 1;\n    }\n}\n",
                &FormatOptions::default(),
            )
            .unwrap(),
        CSharpFormatter::default()
            .format(
                "A.cs",
                "public class A\n{\n    /// <summary>Doc.</summary>\n    public int X()\n    {\n        return 1;\n    }\n}\n",
                &FormatOptions::default(),
            )
            .unwrap(),
        JsFormatter::default()
            .format(
                "a.js",
                "function add( a , b ) {\n    const sum = a + b;\n    return sum;\n}\n",
                &FormatOptions::default(),
            )
            .unwrap(),
    ];
    for r in results {
        assert!(r.original_tokens > 0);
        assert!(r.formatted_tokens > 0);
        assert!(r.formatted_tokens < r.original_tokens);
        assert!(r.tokens_saved() > 0);
    }
}

#[test]
fn lib_the_path_is_not_read() {
    // None of the tree-sitter grammars has a dialect, filepath or version
    // selector, so a supported path is the caller's filter and nothing more.
    let r = GoFormatter::default()
        .format("notes.txt", "package  main\n", &FormatOptions::default())
        .unwrap();
    assert_eq!(r.code, "package main\n");
    let r = JavaFormatter::default()
        .format("notes.txt", "class  A  {}\n", &FormatOptions::default())
        .unwrap();
    assert_eq!(r.code, "class A {}\n");
    let r = CSharpFormatter::default()
        .format("notes.txt", "class  A  {}\n", &FormatOptions::default())
        .unwrap();
    assert_eq!(r.code, "class A {}\n");
}

#[test]
fn lib_parse_errors_are_reported() {
    let failures = [
        GoFormatter::default()
            .format(
                "broken.go",
                "package main\n\nfunc main() {\n",
                &FormatOptions::default(),
            )
            .unwrap_err(),
        JavaFormatter::default()
            .format(
                "Broken.java",
                "class A {\n    void m() {\n",
                &FormatOptions::default(),
            )
            .unwrap_err(),
        CSharpFormatter::default()
            .format(
                "Broken.cs",
                "class A {\n    void M() {\n",
                &FormatOptions::default(),
            )
            .unwrap_err(),
    ];
    for err in failures {
        assert!(matches!(err, Error::Parse(_)), "{err:?}");
        assert!(
            err.to_string()
                .starts_with("parse error: syntax error at byte "),
            "{err:?}"
        );
    }
    let err = JsFormatter::default()
        .format("broken.js", "function (", &FormatOptions::default())
        .unwrap_err();
    assert!(
        err.to_string().starts_with("parse error: broken.js:"),
        "{err:?}"
    );
}

#[test]
fn lib_formatting_is_idempotent() {
    assert_idempotent(
        go,
        &[
            "package main\n\nimport \"fmt\"\n\nfunc main() {\n\tfmt.Println(\"hi\")\n}\n",
            "//go:build ignore\n// +build ignore\n\npackage main\n\nfunc main() {}\n",
            "package main\n\nfunc main() {\n\t//go:generate echo PROMOTED\n\tx := 1\n\t_ = x\n}\n",
            "package main\n\n/*\n#include <stdio.h>\n*/\nimport \"C\"\n\nfunc main() {}\n",
            "package main\n\nvar s = `raw\n  string\n`\n\n// note\nfunc f() {}\n",
        ],
    );
    assert_idempotent(
        java,
        &[
            "class A {\n    String s = \"\"\"\n        one\n          two\n        \"\"\";\n}\n",
            "/**\n * Doc.\n */\npublic class A {\n    /** The field. */\n    private int x = 1;\n}\n",
            "public record Point(int x, int y) {\n    public Point {\n        // note\n        assert x >= 0;\n    }\n}\n",
            "class A {\n    int m(int k) {\n        return switch (k) {\n            case 1 -> 10;\n            default -> 0;\n        };\n    }\n}\n",
            "/** Module docs. */\nmodule org.example {\n    requires java.base;\n    exports org.example.api;\n}\n",
            "class A {\nint x = 1; // c \\u000A int y = 2;\nint z = 3;\n}\n",
        ],
    );
    assert_idempotent(
        csharp,
        &[
            // A file-scoped namespace.
            "namespace Example;\n\npublic class A\n{\n    private int x = 1;\n}\n",
            // A `record struct`.
            "public record struct Point(int X, int Y);\n",
            // A raw string literal, whose interior is a protected span.
            "class A\n{\n    string s = \"\"\"\n        one\n          two\n        \"\"\";\n}\n",
            // A `#region` block.
            "class A\n{\n    #region helpers\n    int x = 1;\n    #endregion\n}\n",
            // An `#if`/`#endif` pair, with the arms complete syntactic units.
            "class A\n{\n#if FOO\n    int x = 1;\n#else\n    int x = 2;\n#endif\n}\n",
            // A primary constructor.
            "public class A(int x)\n{\n    public int X => x;\n}\n",
            // An XML-doc'd class.
            "/// <summary>The class.</summary>\npublic class A\n{\n    /// <summary>The field.</summary>\n    private int x = 1;\n}\n",
            // ...and the boundary-hazard file the bail-out reproduces
            // verbatim, which is idempotent by being untouched.
            "class A {\n#if FALSE\n/*\n#endif\nint x = 1;\n#if FALSE\n*/\n#endif\n}\n",
        ],
    );
    let js_sources = [
        (
            "a.js",
            "class P {\n    constructor( x ) {\n        this.x = x;\n    }\n}\n",
        ),
        ("a.js", "// note\nconst a = 1;\n"),
        ("a.ts", "enum Color {\n    Red = 1 ,\n    Green ,\n}\n"),
        ("a.mjs", "export const a = 1;\n"),
        (
            "a.jsx",
            "const el = <>\n  <div className=\"box\" id={ id } { ...rest }>hi  there</div>\n  {/* c */}\n</>;\n",
        ),
        (
            "a.tsx",
            "const Greet = ( p : { name : string } ) => <span title={ p.name }>Hi, { p.name }!</span>;\n",
        ),
    ];
    for (name, src) in js_sources {
        let once = js(name, src);
        assert_eq!(js(name, &once), once, "not idempotent for {src:?}");
    }
}

#[test]
fn lib_tokenizer_choice_is_respected() {
    let opts = FormatOptions {
        tokenizer: TokenizerKind::Cl100kBase,
        ..FormatOptions::default()
    };
    let counts = [
        GoFormatter::default()
            .format("a.go", "package  main\n", &opts)
            .unwrap()
            .original_tokens,
        JavaFormatter::default()
            .format("A.java", "class  A  {}\n", &opts)
            .unwrap()
            .original_tokens,
        CSharpFormatter::default()
            .format("A.cs", "class  A  {}\n", &opts)
            .unwrap()
            .original_tokens,
        JsFormatter::default()
            .format("a.js", "const a = 1;\n", &opts)
            .unwrap()
            .original_tokens,
    ];
    for n in counts {
        assert!(n > 0);
    }
}

fn assert_all_rejected(supports: fn(&str) -> bool, groups: &[&[&str]]) {
    for group in groups {
        for name in group.iter() {
            assert!(!supports(name), "{name} should be rejected");
        }
    }
}

#[test]
fn paths_rejects_other_languages_and_near_misses() {
    assert_all_rejected(
        supports_go,
        &[
            &["a.py", "a.rs", "a.rb", "a.txt"],
            &["a.GO", "a.Go", "a.gO"],
            &["a.gox", "a.gopher", "a.g", "a.go.txt", "a."],
            &["go.mod", "go.sum", "go", "Gofile", "foo"],
        ],
    );
    assert_all_rejected(
        supports_java,
        &[
            &["a.go", "a.py", "a.rs", "a.rb", "a.txt"],
            &["A.JAVA", "A.Java", "A.jaVa"],
            &["A.javax", "A.jav", "A.j", "A.java.txt", "A."],
            &["A.class", "a.jar", "A.jsh", "java", "Makefile", "foo"],
        ],
    );
    assert_all_rejected(
        supports_cs,
        &[
            &["a.go", "a.java", "a.py", "a.rs", "a.rb", "a.txt"],
            &["A.CS", "A.Cs", "A.cS"],
            &["A.csx", "A.c", "A.cshtml", "A.cs.txt", "A."],
            &[
                "A.csproj", "A.sln", "A.dll", "A.vb", "A.fs", "cs", "Makefile", "foo",
            ],
        ],
    );
}

#[test]
fn paths_rejects_a_path_with_no_file_name() {
    assert!(!supports_go(".."));
    assert!(!supports_java(".."));
    assert!(!supports_cs(".."));
}
