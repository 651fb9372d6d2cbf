//! The Python backend on token streams written out by hand: each stream is
//! what the Python lexer produces for the source quoted next to it.
use tokenpress::error::Error;
use tokenpress::options::{FormatOptions, VerifyLevel};
use tokenpress::python::emit::{PyKind, PyTok, needs_space, render};
use tokenpress::python::verify::{Reparsed, same_canonical, verdict};
use tokenpress::python::passes::{
    Span, merge_imports, settle_indents, strip_annotations, strip_docstrings,
};
use tokenpress::python::{PythonFormatter, PythonOptions, Spans, supports_path};
use tokenpress::tokenizer::TokenizerKind;

fn t(kind: PyKind, text: &str) -> PyTok {
    PyTok { kind, text: text.to_string(), start: 0, end: 0 }
}

/// The tokens with byte ranges laid out one after the other, as if the
/// source were their texts run together.
fn positioned(tokens: Vec<PyTok>) -> Vec<PyTok> {
    let mut at = 0;
    tokens
        .into_iter()
        .map(|mut tok| {
            tok.start = at;
            at += tok.text.len();
            tok.end = at;
            tok
        })
        .collect()
}

fn name(s: &str) -> PyTok {
    t(PyKind::Name, s)
}

fn integer(s: &str) -> PyTok {
    t(PyKind::Int, s)
}

/// Operators, keywords and string parts: kinds the renderer does not tell
/// apart, numbered so that streams can still be compared kind for kind.
fn op(s: &str) -> PyTok {
    let n: u8 = match s {
        "=" => 1,
        "(" => return t(PyKind::Lpar, s),
        ")" => 3,
        "," => return t(PyKind::Comma, s),
        "+" => 5,
        ":" => 6,
        "def" => 7,
        "if" => 8,
        "return" => 9,
        "not" => 11,
        "True" => 12,
        "else" => 13,
        "{" => 18,
        "}" => 19,
        "->" => return t(PyKind::Rarrow, s),
        ":=" => 21,
        ">" => 22,
        "pass" => return t(PyKind::Pass, s),
        "class" => 24,
        "[" => 25,
        "]" => 26,
        "." => 27,
        "self" => 29,
        "as" => 30,
        "*" => return t(PyKind::Star, s),
        ";" => return t(PyKind::Semi, s),
        "import" => return t(PyKind::Import, s),
        "from" => return t(PyKind::From, s),
        _ => panic!("no kind for {s}"),
    };
    t(PyKind::Other(n), s)
}

fn string(s: &str) -> PyTok {
    t(PyKind::Other(14), s)
}

fn nl() -> PyTok {
    t(PyKind::Newline, "\n")
}

fn soft() -> PyTok {
    t(PyKind::NonLogicalNewline, "\n")
}

fn indent(s: &str) -> PyTok {
    t(PyKind::Indent, s)
}

fn dedent() -> PyTok {
    t(PyKind::Dedent, "")
}

fn eof() -> PyTok {
    t(PyKind::EndOfFile, "")
}

fn comment(s: &str) -> PyTok {
    t(PyKind::Comment, s)
}

fn fmt(tokens: &[PyTok]) -> String {
    PythonFormatter::default().render(tokens)
}

fn fmt_keep_comments(tokens: &[PyTok]) -> String {
    PythonFormatter::new(PythonOptions { strip_comments: false, ..PythonOptions::default() }).render(tokens)
}

/// `x = 1\n`
fn x_is_one() -> Vec<PyTok> {
    vec![name("x"), op("="), integer("1"), nl(), eof()]
}

/// `x=1`
fn x_is_one_rendered() -> Vec<PyTok> {
    vec![name("x"), op("="), integer("1"), t(PyKind::Newline, ""), eof()]
}

fn accepted(tokens: Vec<PyTok>) -> Result<Reparsed, String> {
    Ok(Reparsed { tokens, same_ast: true })
}

#[test]
fn py01_removes_spaces_around_operators() {
    // x = f(a, b) + 1
    let toks = vec![
        name("x"),
        op("="),
        name("f"),
        op("("),
        name("a"),
        op(","),
        name("b"),
        op(")"),
        op("+"),
        integer("1"),
        nl(),
        eof(),
    ];
    assert_eq!(fmt(&toks), "x=f(a,b)+1");
}

/// `def f(x):\n    if x:\n        return 1\n`
fn nested_blocks() -> Vec<PyTok> {
    vec![
        op("def"),
        name("f"),
        op("("),
        name("x"),
        op(")"),
        op(":"),
        nl(),
        indent("    "),
        op("if"),
        name("x"),
        op(":"),
        nl(),
        indent("        "),
        op("return"),
        integer("1"),
        nl(),
        dedent(),
        dedent(),
        eof(),
    ]
}

#[test]
fn py02_indents_one_char_per_level() {
    assert_eq!(fmt(&nested_blocks()), "def f(x):\n if x:\n  return 1");
}

#[test]
fn py03_drops_blank_lines() {
    // a = 1\n\n\nb = 2\n
    let toks = vec![
        name("a"),
        op("="),
        integer("1"),
        nl(),
        soft(),
        soft(),
        name("b"),
        op("="),
        integer("2"),
        nl(),
        eof(),
    ];
    assert_eq!(fmt(&toks), "a=1\nb=2");
}

#[test]
fn py03_joins_bracketed_continuation_lines() {
    // f(\n    1,\n    2,\n)\n
    let toks = vec![
        name("f"),
        op("("),
        soft(),
        integer("1"),
        op(","),
        soft(),
        integer("2"),
        op(","),
        soft(),
        op(")"),
        nl(),
        eof(),
    ];
    assert_eq!(fmt(&toks), "f(1,2,)");
}

#[test]
fn py08_backslash_continuation_is_joined() {
    // x = 1 + \\\n    2\n (the continuation yields no token)
    let toks = vec![name("x"), op("="), integer("1"), op("+"), integer("2"), nl(), eof()];
    assert_eq!(fmt(&toks), "x=1+2");
}

#[test]
fn pyo1_strips_comments_by_default() {
    // # top\nx = 1  # trailing\n
    let toks = vec![
        comment("# top"),
        soft(),
        name("x"),
        op("="),
        integer("1"),
        comment("# trailing"),
        nl(),
        eof(),
    ];
    assert_eq!(fmt(&toks), "x=1");
}

#[test]
fn pyo1_keeps_standalone_and_trailing_comments_when_asked() {
    // # top\nx = 1  # trailing\ny = 2\n
    let toks = vec![
        comment("# top"),
        soft(),
        name("x"),
        op("="),
        integer("1"),
        comment("# trailing"),
        nl(),
        name("y"),
        op("="),
        integer("2"),
        nl(),
        eof(),
    ];
    assert_eq!(fmt_keep_comments(&toks), "# top\nx=1 # trailing\ny=2");
}

#[test]
fn keeps_indented_comment_at_its_block_level() {
    // def f():\n    # doc\n    return 1\n
    let toks = vec![
        op("def"),
        name("f"),
        op("("),
        op(")"),
        op(":"),
        nl(),
        comment("# doc"),
        soft(),
        indent("    "),
        op("return"),
        integer("1"),
        nl(),
        dedent(),
        eof(),
    ];
    assert_eq!(fmt_keep_comments(&toks), "def f():\n # doc\n return 1");
}

#[test]
fn keyword_boundaries_keep_a_separating_space() {
    // import os\nreturn_value = not True\n
    let toks = vec![
        op("import"),
        name("os"),
        nl(),
        name("return_value"),
        op("="),
        op("not"),
        op("True"),
        nl(),
        eof(),
    ];
    assert_eq!(fmt(&toks), "import os\nreturn_value=not True");
    // x = 1 if flag else 2\n
    let toks = vec![
        name("x"),
        op("="),
        integer("1"),
        op("if"),
        name("flag"),
        op("else"),
        integer("2"),
        nl(),
        eof(),
    ];
    assert_eq!(fmt(&toks), "x=1 if flag else 2");
}

#[test]
fn fstrings_survive_verbatim() {
    // y = f"a{x + 1}b"\n
    let toks = vec![
        name("y"),
        op("="),
        t(PyKind::Other(15), "f\""),
        t(PyKind::Other(16), "a"),
        op("{"),
        name("x"),
        op("+"),
        integer("1"),
        op("}"),
        t(PyKind::Other(16), "b"),
        t(PyKind::Other(17), "\""),
        nl(),
        eof(),
    ];
    assert_eq!(fmt(&toks), "y=f\"a{x+1}b\"");
}

#[test]
fn triple_quoted_strings_keep_their_newlines() {
    let toks = vec![
        name("s"),
        op("="),
        string("\"\"\"line1\nline2\"\"\""),
        nl(),
        eof(),
    ];
    assert_eq!(fmt(&toks), "s=\"\"\"line1\nline2\"\"\"");
}

#[test]
fn docstrings_are_kept() {
    // def f():\n    """Doc."""\n    return 1\n
    let toks = vec![
        op("def"),
        name("f"),
        op("("),
        op(")"),
        op(":"),
        nl(),
        indent("    "),
        string("\"\"\"Doc.\"\"\""),
        nl(),
        op("return"),
        integer("1"),
        nl(),
        dedent(),
        eof(),
    ];
    assert_eq!(fmt(&toks), "def f():\n \"\"\"Doc.\"\"\"\n return 1");
}

#[test]
fn annotations_and_walrus_are_preserved() {
    // def f(x: int = 1) -> int:\n    return x\n
    let toks = vec![
        op("def"),
        name("f"),
        op("("),
        name("x"),
        op(":"),
        name("int"),
        op("="),
        integer("1"),
        op(")"),
        op("->"),
        name("int"),
        op(":"),
        nl(),
        indent("    "),
        op("return"),
        name("x"),
        nl(),
        dedent(),
        eof(),
    ];
    assert_eq!(fmt(&toks), "def f(x:int=1)->int:\n return x");
    // if (n := 10) > 5:\n    pass\n
    let toks = vec![
        op("if"),
        op("("),
        name("n"),
        op(":="),
        integer("10"),
        op(")"),
        op(">"),
        integer("5"),
        op(":"),
        nl(),
        indent("    "),
        op("pass"),
        nl(),
        dedent(),
        eof(),
    ];
    assert_eq!(fmt(&toks), "if(n:=10)>5:\n pass");
}

#[test]
fn empty_and_comment_only_sources_format_to_empty() {
    assert_eq!(fmt(&[eof()]), "");
    assert_eq!(fmt(&[comment("# only a comment"), soft(), eof()]), "");
}

#[test]
fn crlf_input_is_normalized() {
    // a = 1\r\nb = 2\r\n
    let toks = vec![
        name("a"),
        op("="),
        integer("1"),
        t(PyKind::Newline, "\r\n"),
        name("b"),
        op("="),
        integer("2"),
        t(PyKind::Newline, "\r\n"),
        eof(),
    ];
    assert_eq!(fmt(&toks), "a=1\nb=2");
}

#[test]
fn python_reparse_only_level_also_passes() {
    let opts = FormatOptions {
        verify: VerifyLevel::Reparse,
        ..FormatOptions::default()
    };
    let f = PythonFormatter::default();
    let code = f.render(&x_is_one());
    let r = f
        .conclude("x = 1\n", &x_is_one(), false, code, accepted(x_is_one_rendered()), &opts)
        .unwrap();
    assert_eq!(r.code, "x=1");
}

#[test]
fn lib_external_level_currently_behaves_like_ast_equiv() {
    let opts = FormatOptions {
        verify: VerifyLevel::External,
        ..FormatOptions::default()
    };
    let f = PythonFormatter::default();
    let code = f.render(&x_is_one());
    let r = f
        .conclude("x = 1\n", &x_is_one(), false, code, accepted(x_is_one_rendered()), &opts)
        .unwrap();
    assert_eq!(r.code, "x=1");
    // ... and rejects what the built-in comparison rejects.
    let err = f
        .conclude(
            "x = 1\n",
            &x_is_one(),
            false,
            "x=2".to_string(),
            Ok(Reparsed { tokens: vec![name("x"), op("="), integer("2"), eof()], same_ast: false }),
            &opts,
        )
        .unwrap_err();
    assert!(err.to_string().contains("AST differs"));
}

/// `def add(a, b):\n    result = a + b\n    return result\n`, and the same
/// tokens as they come out of its rendering.
fn add_function(indent_text: &str, last_newline: &str) -> Vec<PyTok> {
    vec![
        op("def"),
        name("add"),
        op("("),
        name("a"),
        op(","),
        name("b"),
        op(")"),
        op(":"),
        nl(),
        indent(indent_text),
        name("result"),
        op("="),
        name("a"),
        op("+"),
        name("b"),
        nl(),
        op("return"),
        name("result"),
        t(PyKind::Newline, last_newline),
        dedent(),
        eof(),
    ]
}

#[test]
fn formatting_reduces_token_count() {
    let src = "def add(a, b):\n    result = a + b\n    return result\n";
    let f = PythonFormatter::default();
    let source_tokens = add_function("    ", "\n");
    let code = f.render(&source_tokens);
    assert_eq!(code, "def add(a,b):\n result=a+b\n return result");
    let r = f
        .conclude(
            src,
            &source_tokens,
            false,
            code,
            accepted(add_function(" ", "")),
            &FormatOptions::default(),
        )
        .unwrap();
    assert!(r.formatted_tokens < r.original_tokens);
    assert!(r.tokens_saved() > 0);
}

#[test]
fn python_formatting_is_idempotent() {
    // The rendering of each source, lexed again, renders to itself: the
    // tokens differ only in their layout texts.
    let once = fmt(&nested_blocks());
    let again = vec![
        op("def"),
        name("f"),
        op("("),
        name("x"),
        op(")"),
        op(":"),
        nl(),
        indent(" "),
        op("if"),
        name("x"),
        op(":"),
        nl(),
        indent("  "),
        op("return"),
        integer("1"),
        t(PyKind::Newline, ""),
        dedent(),
        dedent(),
        eof(),
    ];
    assert_eq!(fmt(&again), once);
    let src = add_function("    ", "\n");
    let out = add_function(" ", "");
    assert_eq!(fmt(&out), fmt(&src));
}

#[test]
fn supports_only_py_extension() {
    let f = PythonFormatter::default();
    assert!(f.supports("a.py"));
    assert!(!f.supports("a.rs"));
    assert!(!f.supports("py"));
    assert_eq!(f.language(), "python");
    assert!(supports_path("dir/b.py"));
}

#[test]
fn python_tokenizer_choice_is_respected() {
    let opts = FormatOptions {
        tokenizer: TokenizerKind::Cl100kBase,
        ..FormatOptions::default()
    };
    let f = PythonFormatter::default();
    let code = f.render(&x_is_one());
    let r = f
        .conclude("x = 1\n", &x_is_one(), false, code, accepted(x_is_one_rendered()), &opts)
        .unwrap();
    assert!(r.original_tokens > 0);
}

#[test]
fn reparse_accepts_valid_and_rejects_invalid_output() {
    assert!(verdict(VerifyLevel::Reparse, &x_is_one(), false, accepted(x_is_one_rendered()), true).is_ok());
    let err = verdict(
        VerifyLevel::Reparse,
        &x_is_one(),
        false,
        Err("Expected a parameter name".to_string()),
        true,
    )
    .unwrap_err();
    assert!(err.to_string().contains("failed to re-parse"));
    assert_eq!(
        err.to_string(),
        "verification failed: output failed to re-parse: parse error: Expected a parameter name"
    );
}

#[test]
fn identical_programs_are_equivalent() {
    // x = 1\ny = 2\n against x=1\ny=2
    let src = vec![name("x"), op("="), integer("1"), nl(), name("y"), op("="), integer("2"), nl(), eof()];
    let out = vec![
        name("x"),
        op("="),
        integer("1"),
        nl(),
        name("y"),
        op("="),
        integer("2"),
        t(PyKind::Newline, ""),
        eof(),
    ];
    assert!(verdict(VerifyLevel::AstEquiv, &src, false, accepted(out), true).is_ok());
}

#[test]
fn token_change_is_caught_even_when_ast_matches() {
    // Redundant parens are invisible in the syntax tree but not in the tokens.
    let out = vec![name("x"), op("="), op("("), integer("1"), op(")"), eof()];
    let err = verdict(VerifyLevel::AstEquiv, &x_is_one(), false, accepted(out), true).unwrap_err();
    assert!(err.to_string().contains("token stream differs"));
}

#[test]
fn kept_comments_participate_in_the_comparison() {
    // x = 1  # note\n
    let src = vec![name("x"), op("="), integer("1"), comment("# note"), nl(), eof()];
    let with = vec![name("x"), op("="), integer("1"), comment("# note"), eof()];
    assert!(verdict(VerifyLevel::AstEquiv, &src, false, accepted(with.clone()), false).is_ok());
    let err = verdict(VerifyLevel::AstEquiv, &src, false, accepted(x_is_one_rendered()), false).unwrap_err();
    assert!(err.to_string().contains("token stream differs"));
    // Stripped comments are left out of the comparison.
    assert!(verdict(VerifyLevel::AstEquiv, &src, false, accepted(x_is_one_rendered()), true).is_ok());
    assert!(same_canonical(&src, &with, true));
}

#[test]
fn adjacent_words_need_a_space() {
    assert!(needs_space(&op("return"), &integer("1")));
    assert!(!needs_space(&name("f"), &op("(")));
}

#[test]
fn glueable_operator_pairs_need_a_space() {
    assert!(needs_space(&op(":"), &op("=")));
    assert!(!needs_space(&op(";"), &op("}")));
}

#[test]
fn integer_followed_by_dot_needs_a_space() {
    assert!(needs_space(&integer("1"), &op(".")));
    assert!(!needs_space(&name("a"), &op(".")));
}

#[test]
fn implicit_string_concatenation_keeps_same_quote_strings_apart() {
    // expected = (\n    ""\n    "Rick: hi"\n    " Morty: hello"\n)\n
    let toks = vec![
        name("expected"),
        op("="),
        op("("),
        soft(),
        string("\"\""),
        soft(),
        string("\"Rick: hi\""),
        soft(),
        string("\" Morty: hello\""),
        soft(),
        op(")"),
        nl(),
        eof(),
    ];
    assert_eq!(fmt(&toks), "expected=(\"\" \"Rick: hi\" \" Morty: hello\")");
    assert!(!needs_space(&string("\"a\""), &string("'b'")));
}

#[test]
fn name_followed_by_quote_needs_a_space() {
    assert!(needs_space(&name("r"), &string("\"x\"")));
}

#[test]
fn empty_token_text_never_needs_a_space() {
    assert!(!needs_space(&t(PyKind::Other(16), ""), &op("{")));
}

#[test]
fn inline_comments_inside_brackets_break_the_line() {
    // result = compute(\n    first,  # the first operand\n    second,\n)\n
    let toks = vec![
        name("result"),
        op("="),
        name("compute"),
        op("("),
        soft(),
        name("first"),
        op(","),
        comment("# the first operand"),
        soft(),
        name("second"),
        op(","),
        soft(),
        op(")"),
        nl(),
        eof(),
    ];
    assert_eq!(
        fmt_keep_comments(&toks),
        "result=compute(first, # the first operand\nsecond,)"
    );
}

#[test]
fn comment_only_line_inside_brackets_survives() {
    // items = [\n    # leading note\n    1,\n]\n
    let toks = vec![
        name("items"),
        op("="),
        op("["),
        soft(),
        comment("# leading note"),
        soft(),
        integer("1"),
        op(","),
        soft(),
        op("]"),
        nl(),
        eof(),
    ];
    assert_eq!(fmt_keep_comments(&toks), "items=[ # leading note\n1,]");
}

#[test]
fn comment_only_file_flushes_pending_comments_at_eof() {
    let toks = vec![comment("# alpha"), soft(), comment("# beta"), soft(), eof()];
    assert_eq!(fmt_keep_comments(&toks), "# alpha\n# beta");
}

#[test]
fn rendering_keeps_every_written_character() {
    // Only spaces and line feeds change: the other characters of the kept
    // tokens come out in order.
    let toks = add_function("    ", "\n");
    let out = render(&toks, false);
    let shown = |s: &str| s.chars().filter(|c| *c != ' ' && *c != '\n').collect::<String>();
    let texts: String = toks.iter().map(|t| t.text.as_str()).collect();
    assert_eq!(shown(&out), shown(&texts));
    assert!(!out.ends_with('\n'));
}

#[test]
fn a_parse_failure_of_the_source_reads_as_a_parse_error() {
    let e = Error::Parse("Expected a parameter name".to_string());
    assert!(e.to_string().starts_with("parse error:"));
}

// The transform passes.

fn merge(tokens: Vec<PyTok>) -> (String, bool) {
    let (merged, modified) = merge_imports(&tokens);
    (render(&merged, false), modified)
}

/// `import <name>\n`
fn plain_import(name_text: &str) -> Vec<PyTok> {
    vec![op("import"), name(name_text), nl()]
}

/// `from <module> import <name>\n`
fn from_import(module: &[PyTok], name_text: &str) -> Vec<PyTok> {
    let mut v = vec![op("from")];
    v.extend(module.iter().cloned());
    v.extend([op("import"), name(name_text), nl()]);
    v
}

fn concat(parts: Vec<Vec<PyTok>>) -> Vec<PyTok> {
    parts.into_iter().flatten().collect()
}

#[test]
fn adjacent_plain_imports_merge() {
    let toks = concat(vec![plain_import("os"), plain_import("sys"), plain_import("re"), vec![eof()]]);
    let (code, modified) = merge(toks);
    assert_eq!(code, "import os,sys,re");
    assert!(modified);
}

#[test]
fn blank_lines_do_not_stop_a_merge() {
    let toks = concat(vec![plain_import("os"), vec![soft(), soft()], plain_import("sys"), vec![eof()]]);
    assert_eq!(merge(toks).0, "import os,sys");
}

#[test]
fn from_imports_merge_only_within_the_same_module() {
    // from a import b\nfrom a import c as d\nfrom e import f\n
    let toks = concat(vec![
        from_import(&[name("a")], "b"),
        vec![op("from"), name("a"), op("import"), name("c"), op("as"), name("d"), nl()],
        from_import(&[name("e")], "f"),
        vec![eof()],
    ]);
    assert_eq!(merge(toks).0, "from a import b,c as d\nfrom e import f");
}

#[test]
fn plain_and_from_imports_do_not_merge_together() {
    let toks = concat(vec![plain_import("os"), from_import(&[name("re")], "match"), vec![eof()]]);
    assert_eq!(merge(toks).0, "import os\nfrom re import match");
}

#[test]
fn relative_import_levels_are_distinct_modules() {
    // from . import a\nfrom .. import b\n
    let toks = concat(vec![
        from_import(&[op(".")], "a"),
        from_import(&[t(PyKind::Other(31), "..")], "b"),
        vec![eof()],
    ]);
    assert_eq!(merge(toks).0, "from.import a\nfrom..import b");
}

#[test]
fn comments_block_merging() {
    let toks = concat(vec![
        plain_import("os"),
        vec![comment("# group two"), soft()],
        plain_import("sys"),
        vec![eof()],
    ]);
    let (code, modified) = merge(toks);
    assert_eq!(code, "import os\n# group two\nimport sys");
    assert!(!modified);
}

#[test]
fn trailing_comments_block_merging() {
    let toks = concat(vec![
        vec![op("import"), name("os"), comment("# core"), nl()],
        plain_import("sys"),
        vec![eof()],
    ]);
    let (code, modified) = merge(toks);
    assert_eq!(code, "import os # core\nimport sys");
    assert!(!modified);
}

#[test]
fn other_statements_block_merging() {
    let toks = concat(vec![
        plain_import("os"),
        vec![name("x"), op("="), integer("1"), nl()],
        plain_import("sys"),
        vec![eof()],
    ]);
    assert_eq!(merge(toks).0, "import os\nx=1\nimport sys");
}

#[test]
fn parenthesized_star_and_semicolon_imports_are_left_alone() {
    let toks = concat(vec![
        vec![op("from"), name("a"), op("import"), op("("), name("b"), op(")"), nl()],
        from_import(&[name("a")], "c"),
        vec![eof()],
    ]);
    let (code, modified) = merge(toks);
    assert_eq!(code, "from a import(b)\nfrom a import c");
    assert!(!modified);
    let star = concat(vec![
        vec![op("from"), name("a"), op("import"), op("*"), nl()],
        from_import(&[name("a")], "b"),
        vec![eof()],
    ]);
    assert!(!merge(star).1);
    let semi = concat(vec![
        vec![op("import"), name("os"), op(";"), op("import"), name("sys"), nl()],
        plain_import("re"),
        vec![eof()],
    ]);
    assert!(!merge(semi).1);
}

#[test]
fn imports_inside_a_function_merge_at_that_level() {
    // def f():\n    import os\n    import sys\n    return os\n
    let toks = concat(vec![
        vec![op("def"), name("f"), op("("), op(")"), op(":"), nl(), indent("    ")],
        plain_import("os"),
        plain_import("sys"),
        vec![op("return"), name("os"), nl(), dedent(), eof()],
    ]);
    assert_eq!(merge(toks).0, "def f():\n import os,sys\n return os");
}

#[test]
fn import_as_the_last_line_without_newline_is_untouched() {
    // The implicit final Newline still terminates the statement.
    let toks = concat(vec![
        plain_import("os"),
        vec![op("import"), name("sys"), t(PyKind::Newline, ""), eof()],
    ]);
    assert_eq!(merge(toks).0, "import os,sys");
}

#[test]
fn code_without_imports_passes_through_merging_unchanged() {
    let toks = nested_blocks();
    let (merged, modified) = merge_imports(&toks);
    assert!(!modified);
    assert_eq!(merged.len(), toks.len());
    for (a, b) in merged.iter().zip(toks.iter()) {
        assert_eq!((a.kind, &a.text), (b.kind, &b.text));
    }
}

fn span_of(toks: &[PyTok], first: usize, last: usize) -> Span {
    Span { start: toks[first].start, end: toks[last].end }
}

#[test]
fn strip_removes_parameter_and_return_annotations() {
    // def f(x: int, y: float = 1.0) -> int:\n    return x\n
    let toks = positioned(vec![
        op("def"),
        name("f"),
        op("("),
        name("x"),
        op(":"),
        name("int"),
        op(","),
        name("y"),
        op(":"),
        name("float"),
        op("="),
        t(PyKind::Float, "1.0"),
        op(")"),
        op("->"),
        name("int"),
        op(":"),
        nl(),
        indent("    "),
        op("return"),
        name("x"),
        nl(),
        dedent(),
        eof(),
    ]);
    let mut spans = Spans::new();
    spans.add_parameter(toks[3].end, Some(toks[5].end));
    spans.add_parameter(toks[7].end, Some(toks[9].end));
    spans.add_return(span_of(&toks, 14, 14));
    let (out, modified) = strip_annotations(
        &toks,
        &spans.annotation_deletes,
        &spans.annotation_returns,
        &spans.annotation_replaced,
    );
    assert!(modified);
    assert_eq!(render(&out, false), "def f(x,y=1.0):\n return x");
}

#[test]
fn strip_rewrites_annotated_assignments() {
    // x: int = 1\n
    let toks = positioned(vec![name("x"), op(":"), name("int"), op("="), integer("1"), nl(), eof()]);
    let mut spans = Spans::new();
    spans.add_annotated_assignment(toks[0].end, toks[2].end, true, span_of(&toks, 0, 4));
    let (out, _) = strip_annotations(&toks, &spans.annotation_deletes, &[], &spans.annotation_replaced);
    assert_eq!(render(&out, false), "x=1");
}

#[test]
fn bare_annotations_become_pass() {
    // class C:\n    x: int\n    y: str\n
    let toks = positioned(vec![
        op("class"),
        name("C"),
        op(":"),
        nl(),
        indent("    "),
        name("x"),
        op(":"),
        name("int"),
        nl(),
        name("y"),
        op(":"),
        name("str"),
        nl(),
        dedent(),
        eof(),
    ]);
    let mut spans = Spans::new();
    spans.add_annotated_assignment(toks[5].end, toks[7].end, false, span_of(&toks, 5, 7));
    spans.add_annotated_assignment(toks[9].end, toks[11].end, false, span_of(&toks, 9, 11));
    let (out, modified) = strip_annotations(&toks, &[], &[], &spans.annotation_replaced);
    assert!(modified);
    assert_eq!(render(&out, false), "class C:\n pass\n pass");
}

#[test]
fn unannotated_code_is_not_modified() {
    let toks = positioned(nested_blocks());
    let (out, modified) = strip_annotations(&toks, &[], &[], &[]);
    assert!(!modified);
    assert_eq!(render(&out, false), "def f(x):\n if x:\n  return 1");
}

#[test]
fn module_docstrings_are_removed() {
    // """Doc."""\nx = 1\n
    let toks = positioned(vec![
        string("\"\"\"Doc.\"\"\""),
        nl(),
        name("x"),
        op("="),
        integer("1"),
        nl(),
        eof(),
    ]);
    let mut spans = Spans::new();
    spans.add_body(Some(span_of(&toks, 0, 0)), 2, false);
    let (out, modified) = strip_docstrings(&toks, &spans.docstring_deletes, &spans.docstring_replaced);
    assert!(modified);
    assert_eq!(render(&out, false), "x=1");
}

#[test]
fn a_sole_docstring_body_becomes_pass() {
    // def f():\n    """Doc."""\n
    let toks = positioned(vec![
        op("def"),
        name("f"),
        op("("),
        op(")"),
        op(":"),
        nl(),
        indent("    "),
        string("\"\"\"Doc.\"\"\""),
        nl(),
        dedent(),
        eof(),
    ]);
    let mut spans = Spans::new();
    spans.add_body(Some(span_of(&toks, 7, 7)), 1, true);
    let (out, _) = strip_docstrings(&toks, &spans.docstring_deletes, &spans.docstring_replaced);
    assert_eq!(render(&out, false), "def f():\n pass");
}

#[test]
fn comments_starting_a_body_move_ahead_of_the_block_indent() {
    // def f():\n    """Doc."""\n    # note\n    return 1\n
    let toks = positioned(vec![
        op("def"),
        name("f"),
        op("("),
        op(")"),
        op(":"),
        nl(),
        indent("    "),
        string("\"\"\"Doc.\"\"\""),
        nl(),
        comment("# note"),
        soft(),
        op("return"),
        integer("1"),
        nl(),
        dedent(),
        eof(),
    ]);
    let mut spans = Spans::new();
    spans.add_body(Some(span_of(&toks, 7, 7)), 2, true);
    let (out, _) = strip_docstrings(&toks, &spans.docstring_deletes, &spans.docstring_replaced);
    let kinds: Vec<PyKind> = out.iter().map(|t| t.kind).collect();
    assert_eq!(
        kinds[5..10].to_vec(),
        vec![PyKind::Newline, PyKind::Comment, PyKind::NonLogicalNewline, PyKind::Indent, PyKind::Other(9)]
    );
    assert_eq!(render(&out, false), "def f():\n # note\n return 1");
}

#[test]
fn settling_moves_an_indent_only_past_comment_lines() {
    let toks = vec![indent(" "), comment("# c"), soft(), name("x"), indent(" "), soft(), name("y")];
    let out = settle_indents(&toks);
    let kinds: Vec<PyKind> = out.iter().map(|t| t.kind).collect();
    assert_eq!(
        kinds,
        vec![
            PyKind::Comment,
            PyKind::NonLogicalNewline,
            PyKind::Indent,
            PyKind::Name,
            PyKind::Indent,
            PyKind::NonLogicalNewline,
            PyKind::Name,
        ]
    );
}

#[test]
fn the_body_spans_decide_between_deleting_and_pass() {
    let s = Span { start: 3, end: 9 };
    let mut spans = Spans::new();
    spans.add_body(Some(s), 1, false);
    spans.add_body(Some(s), 1, true);
    spans.add_body(Some(s), 2, true);
    spans.add_body(None, 1, true);
    assert_eq!(spans.docstring_deletes, vec![s, s]);
    assert_eq!(spans.docstring_replaced, vec![s]);
    spans.add_parameter(4, None);
    assert!(spans.annotation_deletes.is_empty());
}

#[test]
fn default_options_merge_imports_and_nothing_else_changes() {
    let o = PythonOptions::default();
    assert!(o.strip_comments && o.merge_imports);
    assert!(!o.strip_docstrings && !o.strip_annotations);
    let f = PythonFormatter::default();
    let toks = positioned(concat(vec![plain_import("os"), plain_import("sys"), vec![eof()]]));
    let (prepared, modified) = f.prepare(&toks, &Spans::new());
    assert!(modified);
    let code = f.render(&prepared);
    assert_eq!(code, "import os,sys");
    // The rendering is checked against the merged stream, not the source's
    // syntax tree.
    let out = positioned(vec![op("import"), name("os"), op(","), name("sys"), t(PyKind::Newline, ""), eof()]);
    let r = f
        .conclude(
            "import os\nimport sys\n",
            &prepared,
            modified,
            code,
            Ok(Reparsed { tokens: out, same_ast: false }),
            &FormatOptions::default(),
        )
        .unwrap();
    assert_eq!(r.code, "import os,sys");
}
