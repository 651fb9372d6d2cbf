use tokenpress::error::Error;
use tokenpress::formatter::Formatter;
use tokenpress::java::{JavaFormatter, JavaOptions};
use tokenpress::options::{FormatOptions, VerifyLevel};

fn fmt(source: &str) -> String {
    fmt_with(source, JavaOptions::default())
}

fn stripped(source: &str) -> String {
    fmt_with(
        source,
        JavaOptions {
            strip_comments: true,
        },
    )
}

fn fmt_with(source: &str, options: JavaOptions) -> String {
    JavaFormatter::new(options)
        .format("A.java", source, &FormatOptions::default())
        .unwrap()
        .code
}

#[test]
fn language_is_java() {
    assert_eq!(JavaFormatter::default().language(), "java");
}

#[test]
fn supports_the_java_paths() {
    let f = JavaFormatter::default();
    for name in [
        "A.java",
        "src/main/java/org/example/Thing.java",
        "module-info.java",
    ] {
        assert!(f.supports(name), "{name} should be supported");
    }
    for name in ["a.go", "a.rb", "A.JAVA", "A.class", "A.jsh", "java"] {
        assert!(!f.supports(name), "{name} should be rejected");
    }
}

#[test]
fn jv01_minimizes_whitespace() {
    let source = "/**\n * Doc.\n */\npublic class A {\n    /** The field. */\n    private int x = 1;\n\n    public int x() {\n        return x;\n    }\n}\n";
    assert_eq!(
        fmt(source),
        "/**\n * Doc.\n */\npublic class A {\n/** The field. */\nprivate int x = 1;\npublic int x() {\nreturn x;\n}\n}\n"
    );
}

#[test]
fn jvo1_defaults_to_keeping_comments() {
    assert!(!JavaOptions::default().strip_comments);
}

#[test]
fn a_text_block_survives_byte_for_byte_at_both_settings() {
    let source = "class A {\n    // note\n    String s = \"\"\"\n        one\n          two\n        \"\"\";\n}\n";
    let interior = "\"\"\"\n        one\n          two\n        \"\"\"";
    let kept = fmt(source);
    assert!(kept.contains(interior), "{kept:?}");
    assert_eq!(
        kept,
        "class A {\n// note\nString s = \"\"\"\n        one\n          two\n        \"\"\";\n}\n"
    );
    let stripped = stripped(source);
    assert!(stripped.contains(interior), "{stripped:?}");
    assert_eq!(
        stripped,
        "class A {\nString s = \"\"\"\n        one\n          two\n        \"\"\";\n}\n"
    );
}

#[test]
fn jv01_collapses_alignment_and_blank_lines() {
    let source = "class A {\n    int    a   = 1;\n\n    int    bbb = 2;\n}\n";
    assert_eq!(fmt(source), "class A {\nint a = 1;\nint bbb = 2;\n}\n");
}

#[test]
fn jv01_normalizes_crlf() {
    let source = "class A {\r\n\r\n    int a = 1;\r\n}\r\n";
    assert_eq!(fmt(source), "class A {\nint a = 1;\n}\n");
}

#[test]
fn jv01_drops_the_leading_run_of_the_file() {
    assert_eq!(fmt("\n\n   class  A  {}\n"), "class A {}\n");
}

#[test]
fn jvo1_keeps_every_comment_by_default() {
    let source = "class A {\n    // leading\n    int x = 1; // trailing\n    /* inline */ int y = 2;\n}\n";
    assert_eq!(
        fmt(source),
        "class A {\n// leading\nint x = 1; // trailing\n/* inline */ int y = 2;\n}\n"
    );
}

#[test]
fn jvo1_strips_comments_on_request() {
    let source = "class A {\n    // leading\n    int x = 1; // trailing\n    /* inline */ int y = 2;\n}\n";
    assert_eq!(stripped(source), "class A {\nint x = 1;\nint y = 2;\n}\n");
}

#[test]
fn a_comment_only_file_is_emptied_rather_than_refused() {
    let source = "// only a comment\n";
    assert_eq!(stripped(source), "");
    let r = JavaFormatter::new(JavaOptions {
        strip_comments: true,
    })
    .format("A.java", source, &FormatOptions::default())
    .unwrap();
    assert_eq!(r.formatted_tokens, 0);
}

#[test]
fn jvo1_deletes_javadoc_when_stripping() {
    let source = "/**\n * The class.\n */\npublic class A {\n    /** The method. */\n    public void m() {}\n}\n";
    assert_eq!(stripped(source), "public class A {\npublic void m() {}\n}\n");
    assert_eq!(
        fmt(source),
        "/**\n * The class.\n */\npublic class A {\n/** The method. */\npublic void m() {}\n}\n"
    );
}

#[test]
fn an_indented_comment_is_emitted_at_column_0() {
    let source = "class A {\n    void m() {\n        // note\n        int x = 1;\n    }\n}\n";
    assert_eq!(fmt(source), "class A {\nvoid m() {\n// note\nint x = 1;\n}\n}\n");
    assert_eq!(stripped(source), "class A {\nvoid m() {\nint x = 1;\n}\n}\n");
}

#[test]
fn a_comment_byte_adjacent_to_a_literal_takes_only_itself() {
    let source = "class A {\n    void m() {\n        System.out.println(/*c*/\"lit\");\n    }\n}\n";
    assert_eq!(
        stripped(source),
        "class A {\nvoid m() {\nSystem.out.println( \"lit\");\n}\n}\n"
    );
    let after = "class A {\n    void m() {\n        System.out.println(\"lit\"/*c*/);\n    }\n}\n";
    assert_eq!(
        stripped(after),
        "class A {\nvoid m() {\nSystem.out.println(\"lit\" );\n}\n}\n"
    );
}

#[test]
fn an_escape_hazard_file_is_left_byte_identical_at_both_settings() {
    let source = "class A {\nint x = 1; // c \\u000A int y = 2;\nint z = 3;\n}\n";
    assert_eq!(fmt(source), source);
    assert_eq!(stripped(source), source);
}

#[test]
fn an_escape_hazard_file_reports_no_savings() {
    let source = "class A {\nint x = 1; // c \\u000A int y = 2;\nint z = 3;\n}\n";
    let r = JavaFormatter::default()
        .format("A.java", source, &FormatOptions::default())
        .unwrap();
    assert_eq!(r.original_tokens, r.formatted_tokens);
    assert_eq!(r.tokens_saved(), 0);
}

#[test]
fn reparse_only_level_also_passes() {
    let opts = FormatOptions {
        verify: VerifyLevel::Reparse,
        ..FormatOptions::default()
    };
    let r = JavaFormatter::default()
        .format("A.java", "class  A  {}\n", &opts)
        .unwrap();
    assert_eq!(r.code, "class A {}\n");
}

#[test]
fn ast_equiv_is_the_default_level() {
    assert_eq!(FormatOptions::default().verify, VerifyLevel::AstEquiv);
    let opts = FormatOptions {
        verify: VerifyLevel::AstEquiv,
        ..FormatOptions::default()
    };
    let r = JavaFormatter::default()
        .format("A.java", "class  A  {}\n", &opts)
        .unwrap();
    assert_eq!(r.code, "class A {}\n");
}

#[test]
fn java_external_level_without_javac_is_refused_naming_it() {
    let opts = FormatOptions {
        verify: VerifyLevel::External,
        ..FormatOptions::default()
    };
    let err = JavaFormatter::default()
        .format("A.java", "class A {}\n", &opts)
        .unwrap_err();
    assert!(matches!(err, Error::Verification(_)), "{err:?}");
    assert!(err.to_string().contains("javac"), "{err:?}");
}

