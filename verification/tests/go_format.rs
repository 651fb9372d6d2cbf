use tokenpress::error::Error;
use tokenpress::formatter::Formatter;
use tokenpress::go::{GoFormatter, GoOptions};
use tokenpress::options::{FormatOptions, VerifyLevel};

fn fmt(source: &str) -> String {
    fmt_with(source, GoOptions::default())
}

fn stripped(source: &str) -> String {
    fmt_with(
        source,
        GoOptions {
            strip_comments: true,
        },
    )
}

fn fmt_with(source: &str, options: GoOptions) -> String {
    GoFormatter::new(options)
        .format("a.go", source, &FormatOptions::default())
        .unwrap()
        .code
}

#[test]
fn language_is_go() {
    assert_eq!(GoFormatter::default().language(), "go");
}

#[test]
fn supports_the_go_paths() {
    // The decision itself lives in `paths`, which owns its own table of
    // cases; this only pins that the formatter delegates to it.
    let f = GoFormatter::default();
    for name in ["a.go", "main.go", "internal/deep/thing_test.go"] {
        assert!(f.supports(name), "{name} should be supported");
    }
    for name in ["a.rb", "a.py", "go.mod", "go", "a.GO"] {
        assert!(!f.supports(name), "{name} should be rejected");
    }
}

#[test]
fn go01_minimizes_whitespace() {
    let source = "package main\n\nimport \"fmt\"\n\nfunc main() {\n\tfmt.Println(\"hi\")\n}\n";
    assert_eq!(
        fmt(source),
        "package main\nimport \"fmt\"\nfunc main() {\nfmt.Println(\"hi\")\n}\n"
    );
}

#[test]
fn go01_collapses_gofmt_alignment_columns() {
    // gofmt aligns a `var` block's `=` signs with runs of spaces that are
    // pure formatting, and they are pure savings here.
    let source = "package main\n\nvar (\n\ta   = 1\n\tbbb = 2\n)\n";
    assert_eq!(fmt(source), "package main\nvar (\na = 1\nbbb = 2\n)\n");
}

#[test]
fn go01_normalizes_crlf() {
    // A `\r` and the `\n` after it are one whitespace run, so CRLF
    // collapses to the single `\n` it carries.
    let source = "package main\r\n\r\nfunc f() {}\r\n";
    assert_eq!(fmt(source), "package main\nfunc f() {}\n");
}

#[test]
fn go01_drops_the_leading_run_of_a_source_with_no_package_clause() {
    // Measured in G1: a source with no package clause parses, so the
    // backend formats it rather than refusing it, and the prologue lookup
    // has no node to anchor on.
    assert_eq!(fmt("\tfunc  f()  {}\n"), "func f() {}\n");
}

#[test]
fn goo1_defaults_to_keeping_comments() {
    assert!(!GoOptions::default().strip_comments);
}

#[test]
fn goo1_keeps_every_comment_by_default() {
    let source = "package main\n\n// leading\nfunc main() {\n\tx := 1 // trailing\n\t/* inline */ _ = x\n}\n";
    assert_eq!(
        fmt(source),
        "package main\n// leading\nfunc main() {\nx := 1 // trailing\n/* inline */ _ = x\n}\n"
    );
}

#[test]
fn goo1_strips_comments_on_request() {
    // Blanking is length-preserving, so a comment-only line leaves the one
    // newline its run carried and no blank line behind it.
    let source = "package main\n\n// leading\nfunc main() {\n\tx := 1 // trailing\n\t/* inline */ _ = x\n}\n";
    assert_eq!(
        stripped(source),
        "package main\nfunc main() {\nx := 1\n_ = x\n}\n"
    );
}

#[test]
fn lib_a_comment_only_file_is_emptied_rather_than_refused() {
    // A file whose entire content is comments strips down to nothing: the
    // artifact of a root with only comment children is that of an empty
    // root, so the empty file verifies and is returned.
    let source = "// only a comment\n";
    assert_eq!(stripped(source), "");
    let r = GoFormatter::new(GoOptions {
        strip_comments: true,
    })
    .format("a.go", source, &FormatOptions::default())
    .unwrap();
    assert_eq!(r.formatted_tokens, 0);
}

#[test]
fn goo1_keeps_semantic_comments_when_stripping() {
    // The keep predicate is `policy::is_semantic_comment`; this pins that
    // the formatter hands the policy to the engine at all.
    let source =
        "package main\n\n//go:generate echo hi\nfunc f() {}\n\n//line a.go:10\nfunc g() {\n\t// noise\n}\n";
    assert_eq!(
        stripped(source),
        "package main\n//go:generate echo hi\nfunc f() {}\n//line a.go:10\nfunc g() {\n}\n"
    );
}

#[test]
fn an_indented_directive_is_never_promoted_to_column_0() {
    // Go hazard 1, and the reason both compositions are pinned: an
    // indented `//go:generate` is an ordinary comment, and moving it to
    // column 0 makes `go generate` run it. Invisible to re-parse and to
    // the comment-blind equivalence artifact, so the emitter is the only
    // defence — at the default settings just as much as when stripping.
    let source =
        "package main\n\nfunc main() {\n\t//go:generate echo PROMOTED\n\tx := 1\n\t_ = x\n}\n";
    let expected =
        "package main\nfunc main() {\n //go:generate echo PROMOTED\nx := 1\n_ = x\n}\n";
    assert_eq!(fmt(source), expected);
    assert_eq!(stripped(source), expected);
}

#[test]
fn a_column_0_directive_is_not_indented_by_the_pin() {
    // The pin is a promotion guard, not a rewrite: a directive that was
    // already at the start of a line stays exactly where it was.
    let source = "package main\n\nfunc f() {}\n\n//go:noinline\nfunc g() {}\n";
    let expected = "package main\nfunc f() {}\n//go:noinline\nfunc g() {}\n";
    assert_eq!(fmt(source), expected);
    assert_eq!(stripped(source), expected);
}

#[test]
fn the_build_constraint_prologue_survives_verbatim_at_both_settings() {
    // Go hazard 2: `go/build`'s `parseFileHeader` accepts a legacy
    // `// +build` line only when a blank line separates the header from
    // the package clause, and the whitespace policy collapses blank lines.
    // Measured again here with `go list` on go1.24.7: losing that blank
    // line moves the file from `IgnoredGoFiles` into `GoFiles`. Nothing
    // about that depends on comment stripping, so the prologue is
    // protected at the default settings too.
    let source =
        "//go:build ignore\n// +build ignore\n\npackage main\n\nfunc main() {\n\tx  :=  1\n\t_ = x\n}\n";
    let expected =
        "//go:build ignore\n// +build ignore\n\npackage main\nfunc main() {\nx := 1\n_ = x\n}\n";
    assert_eq!(fmt(source), expected);
    assert_eq!(stripped(source), expected);
}

#[test]
fn a_header_without_a_build_constraint_is_minimized_normally() {
    // The prologue is claimed only when the region before the package
    // clause carries a constraint; an ordinary licence banner is not one,
    // so its blank line goes like any other.
    let source = "// licence\n// notes\n\npackage main\n\nfunc f() {}\n";
    assert_eq!(
        fmt(source),
        "// licence\n// notes\npackage main\nfunc f() {}\n"
    );
    assert_eq!(stripped(source), "package main\nfunc f() {}\n");
}

#[test]
fn cgo_files_are_left_byte_identical_at_both_settings() {
    // The comment above `import "C"` is C source and is compiled, and its
    // `#cgo` lines carry linker flags, so there is no narrower rule worth
    // having: the whole file is left alone. The bail-out yields a plan
    // that protects every byte, so the output is the input under any gap
    // policy and any pinning predicate.
    let source = "package main\n\n/*\n#include <stdio.h>\n*/\nimport \"C\"\n\nfunc main() {\n\tC.puts(C.CString(\"hi\"))\n}\n";
    assert_eq!(fmt(source), source);
    assert_eq!(stripped(source), source);
}

#[test]
fn cgo_files_report_no_savings() {
    // The other side of the bail-out, stated where a user would meet it.
    let source = "package main\n\n/*\n#include <stdio.h>\n*/\nimport \"C\"\n\nfunc main() {\n\tC.puts(C.CString(\"hi\"))\n}\n";
    let r = GoFormatter::default()
        .format("a.go", source, &FormatOptions::default())
        .unwrap();
    assert_eq!(r.original_tokens, r.formatted_tokens);
    assert_eq!(r.tokens_saved(), 0);
}

#[test]
fn go_reparse_only_level_also_passes() {
    let opts = FormatOptions {
        verify: VerifyLevel::Reparse,
        ..FormatOptions::default()
    };
    let r = GoFormatter::default()
        .format("a.go", "package  main\n", &opts)
        .unwrap();
    assert_eq!(r.code, "package main\n");
}

#[test]
fn go_ast_equiv_is_the_default_level() {
    assert_eq!(FormatOptions::default().verify, VerifyLevel::AstEquiv);
    let opts = FormatOptions {
        verify: VerifyLevel::AstEquiv,
        ..FormatOptions::default()
    };
    let r = GoFormatter::default()
        .format("a.go", "package  main\n", &opts)
        .unwrap();
    assert_eq!(r.code, "package main\n");
}

#[test]
fn go_external_level_without_gofmt_is_refused_naming_it() {
    let err = GoFormatter::default()
        .format("a.go", "package  main\n", &external())
        .unwrap_err();
    assert!(matches!(err, Error::Verification(_)), "{err:?}");
    assert!(err.to_string().contains("gofmt"), "{err:?}");
}

fn external() -> FormatOptions {
    FormatOptions {
        verify: VerifyLevel::External,
        ..FormatOptions::default()
    }
}

