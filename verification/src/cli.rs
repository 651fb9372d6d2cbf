//! The decisions of the `tokenpress` command line: how the configuration file
//! fills in what the command line left unsaid, which backend a path goes to,
//! which warnings a run owes, the exit code, and the text of the reports.
//! Reading arguments and files and writing output is the program's business;
//! everything it decides on the way is here.
use vstd::prelude::*;
use crate::config::{ConfigVerify, FileConfig};
use crate::error::Error;
use crate::js::external::path_dialect;
use crate::lines::{join, joined, views};
use crate::options::{FormatOptions, VerifyLevel};
use crate::path::extension;
use crate::text::{decimal, decimal_chars, decimal_string};
use crate::tokenizer::{TokenizerKind, kind_name};

verus! {

/// `--verify` as the command line spells it.
#[derive(Clone, Copy, Debug, PartialEq, Eq, Structural)]
pub enum VerifyArg {
    Reparse,
    Ast,
    External,
}

/// The command-line value a configured verification level stands for.
pub open spec fn verify_arg_of(v: ConfigVerify) -> VerifyArg {
    match v {
        ConfigVerify::Reparse => VerifyArg::Reparse,
        ConfigVerify::Ast => VerifyArg::Ast,
        ConfigVerify::External => VerifyArg::External,
    }
}

/// Maps a configured verification level onto the command line's own value.
pub fn verify_arg(v: ConfigVerify) -> (r: VerifyArg)
    ensures
        r == verify_arg_of(v),
{
    match v {
        ConfigVerify::Reparse => VerifyArg::Reparse,
        ConfigVerify::Ast => VerifyArg::Ast,
        ConfigVerify::External => VerifyArg::External,
    }
}

/// The level an unset or given `--verify` selects: `ast` by default.
pub open spec fn level_of(v: Option<VerifyArg>) -> VerifyLevel {
    match v {
        Some(VerifyArg::Reparse) => VerifyLevel::Reparse,
        Some(VerifyArg::External) => VerifyLevel::External,
        _ => VerifyLevel::AstEquiv,
    }
}

/// The options every run shares, as the command line and the configuration
/// file set them. The strip flags are presence-only: once on, nothing turns
/// them off again.
#[derive(Clone, Debug)]
pub struct Settings {
    /// Files or directories to process.
    pub paths: Vec<String>,
    /// An explicit configuration file; without one the nearest
    /// `tokenpress.toml` is looked for.
    pub config: Option<String>,
    pub tokenizer: Option<String>,
    pub verify: Option<VerifyArg>,
    pub py_strip_comments: bool,
    pub py_strip_docstrings: bool,
    pub py_strip_annotations: bool,
    pub py_no_merge_imports: bool,
    pub rs_strip_doc_comments: bool,
    pub js_strip_comments: bool,
    pub go_strip_comments: bool,
    pub java_strip_comments: bool,
    pub csharp_strip_comments: bool,
}

/// Whether a configured switch is on; an absent key is off.
pub open spec fn on(o: Option<bool>) -> bool {
    o == Some(true)
}

fn is_on(o: Option<bool>) -> (r: bool)
    ensures
        r == on(o),
{
    match o {
        Some(b) => b,
        None => false,
    }
}

/// Merges `cfg` into the command line's settings: the file only fills in what
/// the command line left unset, and a switch the file turns on stays on.
/// `merge_imports = false` is the file's spelling of `--py-no-merge-imports`.
pub fn apply_config(s: &mut Settings, cfg: FileConfig)
    ensures
        final(s).paths@ == old(s).paths@,
        final(s).config == old(s).config,
        final(s).tokenizer == (if old(s).tokenizer is Some {
            old(s).tokenizer
        } else {
            cfg.tokenizer
        }),
        final(s).verify == (if old(s).verify is Some {
            old(s).verify
        } else {
            match cfg.verify {
                Some(v) => Some(verify_arg_of(v)),
                None => None,
            }
        }),
        final(s).py_strip_comments == (old(s).py_strip_comments || (cfg.python matches Some(
            p,
        ) && on(p.strip_comments))),
        final(s).py_strip_docstrings == (old(s).py_strip_docstrings || (cfg.python matches Some(
            p,
        ) && on(p.strip_docstrings))),
        final(s).py_strip_annotations == (old(s).py_strip_annotations || (cfg.python matches Some(
            p,
        ) && on(p.strip_annotations))),
        final(s).py_no_merge_imports == (old(s).py_no_merge_imports || (cfg.python matches Some(
            p,
        ) && p.merge_imports == Some(false))),
        final(s).rs_strip_doc_comments == (old(s).rs_strip_doc_comments || (cfg.rust matches Some(
            r,
        ) && on(r.strip_doc_comments))),
        final(s).js_strip_comments == (old(s).js_strip_comments || (cfg.javascript matches Some(
            j,
        ) && on(j.strip_comments))),
        final(s).go_strip_comments == (old(s).go_strip_comments || (cfg.go matches Some(g) && on(
            g.strip_comments,
        ))),
        final(s).java_strip_comments == (old(s).java_strip_comments || (cfg.java matches Some(j)
            && on(j.strip_comments))),
        final(s).csharp_strip_comments == (old(s).csharp_strip_comments || (
        cfg.csharp matches Some(c) && on(c.strip_comments))),
{
    let FileConfig { tokenizer, verify, python, rust, javascript, ruby: _, go, java, csharp } =
        cfg;
    if s.tokenizer.is_none() {
        s.tokenizer = tokenizer;
    }
    if s.verify.is_none() {
        s.verify = configured_verify(verify);
    }
    let (comments, docstrings, annotations, no_merge) = python_switches(python);
    s.py_strip_comments = s.py_strip_comments || comments;
    s.py_strip_docstrings = s.py_strip_docstrings || docstrings;
    s.py_strip_annotations = s.py_strip_annotations || annotations;
    s.py_no_merge_imports = s.py_no_merge_imports || no_merge;
    let rs = match rust {
        Some(r) => is_on(r.strip_doc_comments),
        None => false,
    };
    s.rs_strip_doc_comments = s.rs_strip_doc_comments || rs;
    let js = match javascript {
        Some(j) => is_on(j.strip_comments),
        None => false,
    };
    s.js_strip_comments = s.js_strip_comments || js;
    let go_on = match go {
        Some(g) => is_on(g.strip_comments),
        None => false,
    };
    s.go_strip_comments = s.go_strip_comments || go_on;
    let java_on = match java {
        Some(j) => is_on(j.strip_comments),
        None => false,
    };
    s.java_strip_comments = s.java_strip_comments || java_on;
    let csharp_on = match csharp {
        Some(c) => is_on(c.strip_comments),
        None => false,
    };
    s.csharp_strip_comments = s.csharp_strip_comments || csharp_on;
}

fn configured_verify(v: Option<ConfigVerify>) -> (r: Option<VerifyArg>)
    ensures
        r == (match v {
            Some(v) => Some(verify_arg_of(v)),
            None => None,
        }),
{
    match v {
        Some(v) => Some(verify_arg(v)),
        None => None,
    }
}

/// The four Python switches a `[python]` table turns on: comments,
/// docstrings, annotations, and the refusal to merge imports.
fn python_switches(p: Option<crate::config::PythonConfig>) -> (r: (bool, bool, bool, bool))
    ensures
        r.0 == (p matches Some(t) && on(t.strip_comments)),
        r.1 == (p matches Some(t) && on(t.strip_docstrings)),
        r.2 == (p matches Some(t) && on(t.strip_annotations)),
        r.3 == (p matches Some(t) && t.merge_imports == Some(false)),
{
    match p {
        Some(t) => {
            let merge = match t.merge_imports {
                Some(b) => b,
                None => true,
            };
            (is_on(t.strip_comments), is_on(t.strip_docstrings), is_on(t.strip_annotations), !merge)
        },
        None => (false, false, false, false),
    }
}

/// The tokenizer a run uses when neither the command line nor the file names
/// one.
pub const DEFAULT_TOKENIZER: &'static str = "o200k_base";

/// The name of the tokenizer `s` selects.
pub open spec fn tokenizer_name(s: Settings) -> Seq<char> {
    match s.tokenizer {
        Some(t) => t@,
        None => DEFAULT_TOKENIZER@,
    }
}

/// The language-independent options of a run: the named tokenizer, which
/// must be one this build knows, and the verification level, `ast` unless
/// set.
pub fn format_options(s: &Settings) -> (r: Result<FormatOptions, Error>)
    ensures
        match r {
            Ok(o) => kind_name(o.tokenizer) == tokenizer_name(*s) && o.verify == level_of(s.verify),
            Err(e) => e matches Error::UnknownTokenizer(n) && n@ == tokenizer_name(*s)
                && tokenizer_name(*s) != "o200k_base"@ && tokenizer_name(*s) != "cl100k_base"@,
        },
{
    let name: &str = match &s.tokenizer {
        Some(t) => t.as_str(),
        None => DEFAULT_TOKENIZER,
    };
    let tokenizer = match TokenizerKind::from_name(name) {
        Ok(k) => k,
        Err(e) => {
            return Err(e);
        },
    };
    let verify = match s.verify {
        Some(VerifyArg::Reparse) => VerifyLevel::Reparse,
        Some(VerifyArg::External) => VerifyLevel::External,
        _ => VerifyLevel::AstEquiv,
    };
    Ok(FormatOptions { tokenizer, verify })
}

/// The languages this build has a backend for, in dispatch order.
pub open spec fn language_names() -> Seq<Seq<char>> {
    seq!["Python"@, "JavaScript/TypeScript"@, "Go"@, "Java"@, "C#"@]
}

/// The languages this build has a backend for, in dispatch order.
pub fn languages() -> (r: Vec<&'static str>)
    ensures
        r@.map_values(|l: &str| l@) == language_names(),
{
    let r = vec!["Python", "JavaScript/TypeScript", "Go", "Java", "C#"];
    assert(r@.map_values(|l: &str| l@) =~= language_names());
    r
}

/// The one-line description `--help` opens with: every language, the last
/// one joined by "and".
pub open spec fn about_text() -> Seq<char> {
    "Token-aware formatter for "@ + joined(language_names().drop_last(), ", "@) + " and "@
        + language_names().last()
}

/// The one-line description `--help` opens with.
pub fn about() -> (r: String)
    ensures
        r@ == about_text(),
{
    let names = languages();
    assert(names@.len() == language_names().len());
    let last = names.len() - 1;
    let mut head: Vec<String> = Vec::new();
    let mut i: usize = 0;
    while i < last
        invariant
            last == names@.len() - 1,
            names@.map_values(|l: &str| l@) == language_names(),
            i <= last,
            head@.len() == i,
            views(head@) == language_names().take(i as int),
        decreases last - i,
    {
        head.push(String::from_str(names[i]));
        proof {
            assert(names@.map_values(|l: &str| l@)[i as int] == names@[i as int]@);
            assert(views(head@)[i as int] == head@[i as int]@);
            assert(views(head@) =~= language_names().take(i + 1));
        }
        i = i + 1;
    }
    assert(names@.map_values(|l: &str| l@)[last as int] == names@[last as int]@);
    assert(language_names().take(last as int) =~= language_names().drop_last());
    let mut r = String::from_str("Token-aware formatter for ");
    r.append(join(&head, ", ").as_str());
    r.append(" and ");
    r.append(names[last]);
    r
}

/// The backend a path goes to.
#[derive(Clone, Copy, Debug, PartialEq, Eq, Structural)]
pub enum Backend {
    Python,
    JavaScript,
    Go,
    Java,
    CSharp,
}

/// The first backend, in dispatch order, that claims `path`.
pub open spec fn language_spec(path: Seq<char>) -> Option<Backend> {
    if extension(path) == Some("py"@) {
        Some(Backend::Python)
    } else if path_dialect(path) is Some {
        Some(Backend::JavaScript)
    } else if extension(path) == Some("go"@) {
        Some(Backend::Go)
    } else if extension(path) == Some("java"@) {
        Some(Backend::Java)
    } else if extension(path) == Some("cs"@) {
        Some(Backend::CSharp)
    } else {
        None
    }
}

/// The backend that formats `path`, if any claims it.
pub fn language_of(path: &str) -> (r: Option<Backend>)
    ensures
        r == language_spec(path@),
{
    if crate::python::supports_path(path) {
        Some(Backend::Python)
    } else if crate::js::external::dialect(path).is_ok() {
        Some(Backend::JavaScript)
    } else if crate::go::paths::supports_path(path) {
        Some(Backend::Go)
    } else if crate::java::paths::supports_path(path) {
        Some(Backend::Java)
    } else if crate::csharp::paths::supports_path(path) {
        Some(Backend::CSharp)
    } else {
        None
    }
}

/// A path named on the command line: it must belong to a backend, or the
/// run fails with the path in the message. Paths found by walking a
/// directory are filtered with [`language_of`] instead.
pub fn backend_for(path: &str) -> (r: Result<Backend, Error>)
    ensures
        match r {
            Ok(l) => language_spec(path@) == Some(l),
            Err(e) => language_spec(path@) is None && (e matches Error::UnsupportedLanguage(p)
                && p@ == path@),
        },
{
    match language_of(path) {
        Some(l) => Ok(l),
        None => Err(Error::UnsupportedLanguage(String::from_str(path))),
    }
}

/// What a run was asked to do.
#[derive(Clone, Copy, Debug, PartialEq, Eq, Structural)]
pub enum Action {
    /// Rewrite files in place, or print them.
    Format { to_stdout: bool },
    /// Report which files would change.
    Check,
    /// Show a unified diff of what `Format` would do.
    Diff,
    /// Report token counts.
    Stats { json: bool },
}

/// Whether an action produces rewritten code for the user to read or keep.
pub open spec fn rewrites(action: Action) -> bool {
    action is Format || action is Check || action is Diff
}

/// Whether `files` holds a JavaScript or TypeScript file.
pub open spec fn has_js(files: Seq<String>) -> bool {
    exists|i: int| 0 <= i < files.len() && path_dialect(#[trigger] files[i]@) is Some
}

/// Whether `path` belongs to a backend that `--verify external` does not
/// reach: Python and Rust.
pub open spec fn lacks_external_verify(path: Seq<char>) -> bool {
    extension(path) == Some("py"@) || extension(path) == Some("rs"@)
}

/// Whether `files` holds a file the external level does not reach.
pub open spec fn has_unreached(files: Seq<String>) -> bool {
    exists|i: int| 0 <= i < files.len() && lacks_external_verify(#[trigger] files[i]@)
}

/// The caveat about comments the JavaScript/TypeScript emitter drops: owed
/// once per run, by the actions that rewrite code, when a JavaScript or
/// TypeScript file is processed.
pub fn js_caveat_due(action: Action, files: &Vec<String>) -> (r: bool)
    ensures
        r == (rewrites(action) && has_js(files@)),
{
    let rewriting = match action {
        Action::Stats { .. } => false,
        _ => true,
    };
    if !rewriting {
        return false;
    }
    let mut i: usize = 0;
    while i < files.len()
        invariant
            rewrites(action),
            i <= files@.len(),
            forall|j: int| 0 <= j < i ==> path_dialect(#[trigger] files@[j]@) is None,
        decreases files@.len() - i,
    {
        if crate::js::external::dialect(files[i].as_str()).is_ok() {
            assert(path_dialect(files@[i as int]@) is Some);
            return true;
        }
        i = i + 1;
    }
    false
}

/// The warning that `--verify external` is only `ast` for some languages:
/// owed once per run, at that level, when such a file is processed, whatever
/// the action.
pub fn external_warning_due(verify: Option<VerifyArg>, files: &Vec<String>) -> (r: bool)
    ensures
        r == (verify == Some(VerifyArg::External) && has_unreached(files@)),
{
    match verify {
        Some(VerifyArg::External) => {},
        _ => {
            return false;
        },
    }
    let mut i: usize = 0;
    while i < files.len()
        invariant
            verify == Some(VerifyArg::External),
            i <= files@.len(),
            forall|j: int| 0 <= j < i ==> !lacks_external_verify(#[trigger] files@[j]@),
        decreases files@.len() - i,
    {
        let p = files[i].as_str();
        if crate::path::has_extension(p, "py") || crate::path::has_extension(p, "rs") {
            assert(lacks_external_verify(files@[i as int]@));
            return true;
        }
        i = i + 1;
    }
    false
}

/// Which backends `--verify external` reaches, and with which tool.
pub const EXTERNAL_VERIFY_WARNING_HEAD: &'static str =
    "warning: external-tooling verification is implemented for
  JavaScript/TypeScript, where `--verify external` runs `tsc --noEmit`
  (falling back to `node --check`), for Go, where it runs `gofmt -e`, for
  Java, where it runs `javac`, and for C#, where it runs `csc`; each fails if
  the tool it needs is not on PATH.";

/// Which backends it does not reach; written right after the head.
pub const EXTERNAL_VERIFY_WARNING_TAIL: &'static str = "
  It is not implemented for Python and Rust: neither `py_compile` nor
  `rustc --emit=metadata` is invoked, so for `.py` and `.rs` this level
  behaves exactly like `--verify ast`, i.e. the output is re-parsed and
  compared for AST / token-stream equivalence.";

/// What the JavaScript/TypeScript emitter drops whatever the options say.
pub const JS_CAVEAT_WARNING: &'static str =
    "warning: JavaScript/TypeScript output is not comment-preserving: trailing
  comments and comments in expression position are always dropped when
  re-emitting, even without --js-strip-comments. Only leading statement-level
  comments, jsdoc (`/** */`), annotation comments (such as `#__PURE__`) and
  legal comments (`//!`, `/*!`, `@license`, `@preserve`) survive. Verification
  cannot detect this: its canonical form is comment-free by construction.
  In JSX/TSX, JSX text is never compressed -- whitespace inside element
  children is significant -- so savings there come from the surrounding
  JavaScript only, and a comment-only expression container `{/* c */}` becomes
  `{}` under --js-strip-comments (valid JSX, renders identically).";

/// The exit code of a run: 2 when any file failed, 1 when `check` found a
/// file that would change, 0 otherwise.
pub open spec fn exit_code_spec(action: Action, changed: nat, errored: bool) -> i32 {
    if errored {
        2
    } else if action is Check && changed > 0 {
        1
    } else {
        0
    }
}

/// The exit codes of a run: a run in which any file failed exits with 2,
/// whatever the action and however many files would change; otherwise 1
/// exactly when `check` found a file that would change, and 0 when it did
/// not or the action was another.
pub proof fn law_exit_codes(action: Action, changed: nat, errored: bool)
    ensures
        errored ==> exit_code_spec(action, changed, errored) == 2,
        !errored ==> (exit_code_spec(action, changed, errored) == 1 <==> (action is Check && changed
            > 0)),
        exit_code_spec(action, changed, errored) == 0 <==> (!errored && !(action is Check && changed
            > 0)),
        exit_code_spec(action, changed, errored) == 0 || exit_code_spec(action, changed, errored)
            == 1 || exit_code_spec(action, changed, errored) == 2,
{
}

/// What a run does with one formatted file.
#[derive(Clone, Copy, Debug, PartialEq, Eq, Structural)]
pub struct FileEffect {
    /// The output differs from the file's contents.
    pub changed: bool,
    /// The output replaces the file on disk.
    pub write: bool,
    /// The output is printed.
    pub print: bool,
    /// The file is reported as one that would change (`check`) or shown as
    /// a diff (`diff`).
    pub report: bool,
}

/// What `action` does with a file whose contents are `original` and whose
/// formatted output is `code`: `format` rewrites a changed file in place, or
/// prints every output with `--stdout`; `check` and `diff` report the changed
/// files; `stats` only counts.
pub fn file_effect(action: Action, original: &str, code: &str) -> (r: FileEffect)
    ensures
        r.changed == (original@ != code@),
        r.write == (action == Action::Format { to_stdout: false } && r.changed),
        r.print == (action == Action::Format { to_stdout: true }),
        r.report == ((action is Check || action is Diff) && r.changed),
{
    let changed = !crate::text::str_eq(original, code);
    match action {
        Action::Format { to_stdout } => FileEffect {
            changed,
            write: !to_stdout && changed,
            print: to_stdout,
            report: false,
        },
        Action::Check | Action::Diff => FileEffect { changed, write: false, print: false, report: changed },
        Action::Stats { .. } => FileEffect { changed, write: false, print: false, report: false },
    }
}

/// The exit code of a run that processed its files, `changed` of which
/// would change, and failed on some if `errored`.
pub fn exit_code(action: Action, changed: usize, errored: bool) -> (r: i32)
    ensures
        r == exit_code_spec(action, changed as nat, errored),
        errored ==> r == 2,
        !errored ==> (r == 1 <==> (action is Check && changed > 0)),
        r == 0 <==> (!errored && !(action is Check && changed > 0)),
        r == 0 || r == 1 || r == 2,
{
    proof {
        law_exit_codes(action, changed as nat, errored);
    }
    if errored {
        2
    } else {
        match action {
            Action::Check => if changed > 0 {
                1
            } else {
                0
            },
            _ => 0,
        }
    }
}

/// The last line of `check`.
pub open spec fn check_summary_text(changed: nat, total: nat) -> Seq<char> {
    decimal(changed) + " of "@ + decimal(total) + " files would change"@
}

/// The last line of `check`: how many of the processed files would change.
pub fn check_summary(changed: usize, total: usize) -> (r: String)
    ensures
        r@ == check_summary_text(changed as nat, total as nat),
{
    let mut r = decimal_string(changed);
    r.append(" of ");
    r.append(decimal_string(total).as_str());
    r.append(" files would change");
    r
}

/// Decimal digits with a `,` between every group of three, counted from the
/// right.
pub open spec fn grouped(d: Seq<char>) -> Seq<char>
    decreases d.len(),
{
    if d.len() <= 3 {
        d
    } else {
        grouped(d.subrange(0, d.len() - 3)) + seq![','] + d.subrange(d.len() - 3, d.len() as int)
    }
}

/// Appends `d[from..to]` to `out`.
fn push_range(out: &mut String, d: &Vec<char>, from: usize, to: usize)
    requires
        from <= to <= d@.len(),
    ensures
        final(out)@ == old(out)@ + d@.subrange(from as int, to as int),
{
    let mut i = from;
    while i < to
        invariant
            from <= i <= to <= d@.len(),
            out@ == old(out)@ + d@.subrange(from as int, i as int),
        decreases to - i,
    {
        crate::text::push_char(out, d[i]);
        i = i + 1;
        assert(out@ =~= old(out)@ + d@.subrange(from as int, i as int));
    }
}

/// Appends the digits `d[..end]`, grouped by three.
fn push_grouped(out: &mut String, d: &Vec<char>, end: usize)
    requires
        end <= d@.len(),
    ensures
        final(out)@ == old(out)@ + grouped(d@.subrange(0, end as int)),
    decreases end,
{
    if end <= 3 {
        push_range(out, d, 0, end);
    } else {
        push_grouped(out, d, end - 3);
        crate::text::push_char(out, ',');
        push_range(out, d, end - 3, end);
        let ghost p = d@.subrange(0, end as int);
        assert(p.subrange(0, p.len() - 3) =~= d@.subrange(0, end - 3));
        assert(p.subrange(p.len() - 3, p.len() as int) =~= d@.subrange(end - 3, end as int));
    }
}

/// `n` in decimal with thousands separators: `1234567` is `1,234,567`.
pub fn thousands(n: usize) -> (r: String)
    ensures
        r@ == grouped(decimal(n as nat)),
{
    let d = decimal_chars(n);
    let mut r = String::new();
    push_grouped(&mut r, &d, d.len());
    assert(d@.subrange(0, d@.len() as int) =~= d@);
    r
}

/// What a character becomes inside a JSON string: a backslash or a quote is
/// escaped, anything else stays.
pub open spec fn escape_char(c: char) -> Seq<char> {
    if c == '\\' {
        seq!['\\', '\\']
    } else if c == '"' {
        seq!['\\', '"']
    } else {
        seq![c]
    }
}

/// `s` with every backslash and quote escaped.
pub open spec fn escaped(s: Seq<char>) -> Seq<char>
    decreases s.len(),
{
    if s.len() == 0 {
        Seq::empty()
    } else {
        escaped(s.drop_last()) + escape_char(s.last())
    }
}

/// `s` with every backslash and quote escaped, for a JSON string.
pub fn json_escape(s: &str) -> (r: String)
    ensures
        r@ == escaped(s@),
{
    let cs = crate::text::chars_of(s);
    let mut r = String::new();
    let mut i: usize = 0;
    while i < cs.len()
        invariant
            cs@ == s@,
            i <= cs@.len(),
            r@ == escaped(s@.take(i as int)),
        decreases cs@.len() - i,
    {
        let c = cs[i];
        if c == '\\' {
            crate::text::push_char(&mut r, '\\');
            crate::text::push_char(&mut r, '\\');
        } else if c == '"' {
            crate::text::push_char(&mut r, '\\');
            crate::text::push_char(&mut r, '"');
        } else {
            crate::text::push_char(&mut r, c);
        }
        proof {
            let t = s@.take(i + 1);
            assert(t.drop_last() =~= s@.take(i as int));
            assert(t.last() == c);
            assert(r@ =~= escaped(t));
        }
        i = i + 1;
    }
    assert(s@.take(s@.len() as int) =~= s@);
    r
}

/// One file's line of `stats --json`.
#[derive(Clone, Debug)]
pub struct StatsEntry {
    pub path: String,
    pub original_tokens: usize,
    pub formatted_tokens: usize,
}

/// The JSON object for one file.
pub open spec fn entry_json(e: StatsEntry) -> Seq<char> {
    "{\"path\":\""@ + escaped(e.path@) + "\",\"original_tokens\":"@ + decimal(
        e.original_tokens as nat,
    ) + ",\"formatted_tokens\":"@ + decimal(e.formatted_tokens as nat) + "}"@
}

/// The original token counts, summed.
pub open spec fn sum_original(es: Seq<StatsEntry>) -> nat
    decreases es.len(),
{
    if es.len() == 0 {
        0
    } else {
        sum_original(es.drop_last()) + es.last().original_tokens as nat
    }
}

/// The formatted token counts, summed.
pub open spec fn sum_formatted(es: Seq<StatsEntry>) -> nat
    decreases es.len(),
{
    if es.len() == 0 {
        0
    } else {
        sum_formatted(es.drop_last()) + es.last().formatted_tokens as nat
    }
}

/// The JSON objects of the files, in order.
pub open spec fn entries_json(es: Seq<StatsEntry>) -> Seq<Seq<char>> {
    es.map_values(|e: StatsEntry| entry_json(e))
}

/// The whole `stats --json` report: every file, then the totals.
pub open spec fn stats_json(es: Seq<StatsEntry>) -> Seq<char> {
    "{\"files\":["@ + joined(entries_json(es), ","@)
        + "],\"original_tokens\":"@ + decimal(sum_original(es)) + ",\"formatted_tokens\":"@
        + decimal(sum_formatted(es)) + "}"@
}

proof fn lemma_sums_grow(es: Seq<StatsEntry>, i: int)
    requires
        0 <= i <= es.len(),
    ensures
        sum_original(es.take(i)) <= sum_original(es),
        sum_formatted(es.take(i)) <= sum_formatted(es),
    decreases es.len() - i,
{
    if i < es.len() {
        lemma_sums_grow(es, i + 1);
        assert(es.take(i + 1).drop_last() =~= es.take(i));
    } else {
        assert(es.take(i) =~= es);
    }
}

/// The JSON object for one file.
fn entry_text(e: &StatsEntry) -> (r: String)
    ensures
        r@ == entry_json(*e),
{
    let mut r = String::from_str("{\"path\":\"");
    r.append(json_escape(e.path.as_str()).as_str());
    r.append("\",\"original_tokens\":");
    r.append(decimal_string(e.original_tokens).as_str());
    r.append(",\"formatted_tokens\":");
    r.append(decimal_string(e.formatted_tokens).as_str());
    r.append("}");
    r
}

/// The `stats --json` report. The totals must fit a `usize`.
pub fn report_json(entries: &Vec<StatsEntry>) -> (r: String)
    requires
        sum_original(entries@) <= usize::MAX,
        sum_formatted(entries@) <= usize::MAX,
    ensures
        r@ == stats_json(entries@),
{
    let mut texts: Vec<String> = Vec::new();
    let mut orig: usize = 0;
    let mut new: usize = 0;
    let mut i: usize = 0;
    while i < entries.len()
        invariant
            i <= entries@.len(),
            sum_original(entries@) <= usize::MAX,
            sum_formatted(entries@) <= usize::MAX,
            texts@.len() == i,
            views(texts@) == entries_json(entries@.take(i as int)),
            orig == sum_original(entries@.take(i as int)),
            new == sum_formatted(entries@.take(i as int)),
        decreases entries@.len() - i,
    {
        proof {
            lemma_sums_grow(entries@, i + 1);
            assert(entries@.take(i + 1).drop_last() =~= entries@.take(i as int));
        }
        let t = entry_text(&entries[i]);
        assert(t@ == entry_json(entries@[i as int]));
        let ghost before = views(texts@);
        texts.push(t);
        orig = orig + entries[i].original_tokens;
        new = new + entries[i].formatted_tokens;
        proof {
            assert(views(texts@)[i as int] == texts@[i as int]@);
            let now = entries_json(entries@.take(i + 1));
            let was = entries_json(entries@.take(i as int));
            assert forall|j: int| 0 <= j < i + 1 implies views(texts@)[j] == now[j] by {
                if j < i {
                    assert(views(texts@)[j] == texts@[j]@);
                    assert(before[j] == was[j]);
                    assert(entries@.take(i + 1)[j] == entries@.take(i as int)[j]);
                }
            }
            assert(views(texts@) =~= now);
        }
        i = i + 1;
    }
    assert(entries@.take(entries@.len() as int) =~= entries@);
    let mut r = String::from_str("{\"files\":[");
    r.append(join(&texts, ",").as_str());
    r.append("],\"original_tokens\":");
    r.append(decimal_string(orig).as_str());
    r.append(",\"formatted_tokens\":");
    r.append(decimal_string(new).as_str());
    r.append("}");
    r
}

/// The unified diff `similar` renders from `original` to `code`, line by
/// line, under the file headers `a` and `b`.
pub uninterp spec fn unified_diff_text(
    original: Seq<char>,
    code: Seq<char>,
    a: Seq<char>,
    b: Seq<char>,
) -> Seq<char>;

/// `TextDiff::from_lines(original, code).unified_diff().header(a, b)`,
/// rendered: a function of its four arguments alone, as the diff is
/// computed without a deadline.
#[verifier::external_body]
fn unified_text(original: &str, code: &str, a: &str, b: &str) -> (r: String)
    ensures
        r@ == unified_diff_text(original@, code@, a@, b@),
{
    similar::TextDiff::from_lines(original, code).unified_diff().header(a, b).to_string()
}

/// What `diff` prints for one file: the unified diff from `original` to
/// `code`, with the file headers `a/<path>` and `b/<path>`.
pub fn diff_report(path: &str, original: &str, code: &str) -> (r: String)
    ensures
        r@ == unified_diff_text(original@, code@, "a/"@ + path@, "b/"@ + path@),
{
    let a = String::from_str("a/").concat(path);
    let b = String::from_str("b/").concat(path);
    unified_text(original, code, a.as_str(), b.as_str())
}

/// The per-language options of a run, as the settings select them.
#[derive(Clone, Copy, Debug)]
pub struct BackendOptions {
    pub python: crate::python::PythonOptions,
    pub js: crate::js::JsOptions,
    pub go: crate::go::GoOptions,
    pub java: crate::java::JavaOptions,
    pub csharp: crate::csharp::CSharpOptions,
}

/// The per-language options the settings select: each strip flag is copied,
/// and imports merge unless `--py-no-merge-imports` is set.
pub fn backend_options(s: &Settings) -> (r: BackendOptions)
    ensures
        r.python.strip_comments == s.py_strip_comments,
        r.python.strip_docstrings == s.py_strip_docstrings,
        r.python.strip_annotations == s.py_strip_annotations,
        r.python.merge_imports == !s.py_no_merge_imports,
        r.js.strip_comments == s.js_strip_comments,
        r.go.strip_comments == s.go_strip_comments,
        r.java.strip_comments == s.java_strip_comments,
        r.csharp.strip_comments == s.csharp_strip_comments,
{
    BackendOptions {
        python: crate::python::PythonOptions {
            strip_comments: s.py_strip_comments,
            strip_docstrings: s.py_strip_docstrings,
            strip_annotations: s.py_strip_annotations,
            merge_imports: !s.py_no_merge_imports,
        },
        js: crate::js::JsOptions { strip_comments: s.js_strip_comments },
        go: crate::go::GoOptions { strip_comments: s.go_strip_comments },
        java: crate::java::JavaOptions { strip_comments: s.java_strip_comments },
        csharp: crate::csharp::CSharpOptions { strip_comments: s.csharp_strip_comments },
    }
}

} // verus!
