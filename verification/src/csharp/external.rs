//! External verification for C#: Roslyn's `csc`, run with no reference
//! assemblies at all. Roslyn has no parse-only switch, so a file checked on
//! its own always draws semantic complaints; they are made to cancel instead.
//! The `error CS####` codes of the original and of the output are collected
//! as multisets, positions discarded, and the output is accepted only when
//! the two are equal. Because the verdict is parsed out of what the compiler
//! prints, the check first runs a self-test pair and requires both that the
//! expected codes were read and that the pair's complaints cancel.
use vstd::prelude::*;
use crate::error::Error;
use crate::go::external::{io_only, is_prefix_chars, lemma_prefix_concat};
use crate::external::strs;
use crate::lines::{
    ascending,
    count_of,
    digit_prefix,
    find_from,
    join,
    joined,
    lines_of,
    sort_strings,
    split_lines,
    trim,
    views,
};
use crate::text::decimal;

verus! {

/// The names probed for the .NET host, in order.
pub const DOTNET_NAMES: [&'static str; 1] = ["dotnet"];

/// What the probe passes: it proves the host starts and reports where the
/// compiler lives.
pub const LIST_SDKS_ARG: &'static str = "--list-sdks";

/// Where `csc.dll` sits inside one SDK directory.
pub const CSC_RELATIVE: [&'static str; 3] = ["Roslyn", "bincore", "csc.dll"];

/// The invocation: no reference assemblies, a library target, and the
/// newest language version the SDK knows.
pub const CSC_ARGS: [&'static str; 5] = [
    "/nologo",
    "/noconfig",
    "/nostdlib+",
    "/t:library",
    "/langversion:latest",
];

/// The scratch names of the four files checked.
pub const FORMATTED_NAME: &'static str = "formatted.cs";

pub const ORIGINAL_NAME: &'static str = "original.cs";

pub const SELF_TEST_NAME: &'static str = "selftest.cs";

pub const SELF_TEST_MINIMIZED_NAME: &'static str = "selftest-minimized.cs";

/// What a diagnostic line says just before its code; warnings are not read.
pub const ERROR_MARKER: &'static str = "error CS";

/// Valid C# in which nothing resolves.
pub const SELF_TEST_SOURCE: &'static str =
    "using Example.Nope;\n\npublic class Probe\n{\n    private Widget widget;\n\n    public void First(params Gadget[] parts) { }\n\n    public void Second(params Thing[] parts) { }\n}\n";

/// [`SELF_TEST_SOURCE`] after this backend's own minimization.
pub const SELF_TEST_MINIMIZED: &'static str =
    "using Example.Nope;\npublic class Probe\n{\nprivate Widget widget;\npublic void First(params Gadget[] parts) { }\npublic void Second(params Thing[] parts) { }\n}\n";

/// The distinct codes [`SELF_TEST_SOURCE`] is known to provoke, sorted.
pub const SELF_TEST_CODES: [&'static str; 3] = ["CS0246", "CS0518", "CS0656"];

/// How the compiler is invoked: the host program, and the `csc.dll` an SDK
/// on this machine provides.
#[derive(Clone, Debug)]
pub struct Compiler {
    pub program: String,
    pub csc: String,
}

impl Compiler {
    /// The command line, for quoting back in a diagnostic.
    pub fn invocation(&self) -> (r: String)
        ensures
            r@ == self.program@ + " "@ + self.csc@
                + " /nologo /noconfig /nostdlib+ /t:library /langversion:latest"@,
    {
        String::from_str(self.program.as_str()).concat(" ").concat(self.csc.as_str()).concat(
            " /nologo /noconfig /nostdlib+ /t:library /langversion:latest",
        )
    }
}

/// What one compiler run reported: its `error CS####` codes, sorted, and
/// its output, kept for quoting.
#[derive(Clone, Debug)]
pub struct Report {
    pub codes: Vec<String>,
    pub text: String,
}

/// The seam to the compiler. An implementation owns one private scratch
/// directory per check and runs the compiler inside it. What the machine
/// answers is not described: each method's result is one of the answers the
/// implementation may give to that request. An implementation that does not
/// say which answers it gives may give any.
pub trait CscTools {
    /// Whether `found` is an answer this toolchain may give when asked for
    /// the first of `candidates` that starts and reports an SDK with a
    /// `csc.dll`.
    closed spec fn finds(&self, candidates: Seq<Seq<char>>, found: Option<Compiler>) -> bool {
        true
    }

    /// Whether `result` is an answer this toolchain may give when `contents`
    /// is written to the file `name` of its scratch directory and `compiler`
    /// is run over it.
    closed spec fn compiles(
        &self,
        compiler: Compiler,
        name: Seq<char>,
        contents: Seq<char>,
        result: Result<String, Error>,
    ) -> bool {
        true
    }

    /// The first of `candidates` that starts and reports an SDK with a
    /// `csc.dll`, or `None`.
    fn locate(&self, candidates: &[&str]) -> (r: Option<Compiler>)
        ensures
            self.finds(strs(candidates@), r),
    ;

    /// Writes `contents` to the file `name` of the scratch directory, runs
    /// the compiler over it and returns its trimmed standard output. `Err`
    /// means the file could not be written or the process not run at all.
    fn compile(&self, compiler: &Compiler, name: &str, contents: &str) -> (r: Result<
        String,
        Error,
    >)
        ensures
            self.compiles(*compiler, name@, contents@, r),
    ;
}

/// A machine with no .NET SDK: no compiler can be found, so a check that
/// needs one reports it missing.
#[derive(Clone, Copy, Debug)]
pub struct NoCompiler;

impl CscTools for NoCompiler {
    open spec fn finds(&self, candidates: Seq<Seq<char>>, found: Option<Compiler>) -> bool {
        found is None
    }

    open spec fn compiles(
        &self,
        compiler: Compiler,
        name: Seq<char>,
        contents: Seq<char>,
        result: Result<String, Error>,
    ) -> bool {
        result matches Err(e) && e matches Error::Io(m) && m@ == "no compiler can be started"@
    }

    fn locate(&self, _candidates: &[&str]) -> (r: Option<Compiler>) {
        None
    }

    fn compile(&self, _compiler: &Compiler, _name: &str, _contents: &str) -> (r: Result<
        String,
        Error,
    >) {
        Err(Error::Io(String::from_str("no compiler can be started")))
    }
}

/// `dir` with `part` pushed onto it as `PathBuf::push` does on a
/// `/`-separated system: an absolute `part` replaces it, and a separator is
/// added unless `dir` is empty or already ends with one.
pub open spec fn pushed(dir: Seq<char>, part: Seq<char>) -> Seq<char> {
    if part.len() > 0 && part[0] == '/' {
        part
    } else if dir.len() == 0 || dir.last() == '/' {
        dir + part
    } else {
        dir + "/"@ + part
    }
}

/// The `csc.dll` path one `dotnet --list-sdks` line names, if the line is
/// shaped `<version> [<directory>]` once trimmed.
pub open spec fn sdk_path(line: Seq<char>) -> Option<Seq<char>> {
    let t = trim(line);
    match find_from(t, " ["@, 0) {
        None => None,
        Some(k) => {
            let version = t.subrange(0, k);
            let rest = t.subrange(k + 2, t.len() as int);
            if rest.len() > 0 && rest.last() == ']' {
                Some(
                    pushed(
                        pushed(pushed(pushed(rest.drop_last(), version), "Roslyn"@), "bincore"@),
                        "csc.dll"@,
                    ),
                )
            } else {
                None
            }
        },
    }
}

/// The `csc.dll` paths of a listing's lines, in order, skipping lines that
/// are not shaped like an SDK entry.
pub open spec fn sdk_paths(lines: Seq<Seq<char>>) -> Seq<Seq<char>>
    decreases lines.len(),
{
    if lines.len() == 0 {
        Seq::empty()
    } else {
        sdk_paths(lines.drop_last()) + match sdk_path(lines.last()) {
            Some(p) => seq![p],
            None => Seq::empty(),
        }
    }
}

fn push_part(dir: Vec<char>, part: &[char]) -> (r: Vec<char>)
    ensures
        r@ == pushed(dir@, part@),
{
    if part.len() > 0 && part[0] == '/' {
        return crate::lines::copy_range(part, 0, part.len());
    }
    let mut r = dir;
    if r.len() > 0 && r[r.len() - 1] != '/' {
        r.push('/');
    }
    let ghost head = r@;
    let mut k: usize = 0;
    while k < part.len()
        invariant
            k <= part@.len(),
            r@ == head + part@.subrange(0, k as int),
        decreases part@.len() - k,
    {
        r.push(part[k]);
        k = k + 1;
        assert(r@ =~= head + part@.subrange(0, k as int));
    }
    proof {
        reveal_strlit("/");
        assert(part@.subrange(0, part@.len() as int) =~= part@);
        if !(dir@.len() == 0 || dir@.last() == '/') {
            assert(head =~= dir@ + "/"@);
            assert(r@ =~= dir@ + "/"@ + part@);
        }
    }
    r
}

/// The `csc.dll` path one listing line names.
fn sdk_line(line: &[char]) -> (r: Option<String>)
    ensures
        match r {
            Some(p) => sdk_path(line@) == Some(p@),
            None => sdk_path(line@) is None,
        },
{
    let (a, b) = crate::lines::trim_bounds(line);
    let t = crate::lines::copy_range(line, a, b);
    let open = crate::text::chars_of(" [");
    proof {
        reveal_strlit(" [");
    }
    assert(open@ =~= " ["@);
    match crate::lines::find(t.as_slice(), open.as_slice()) {
        None => None,
        Some(k) => {
            let version = crate::lines::copy_range(t.as_slice(), 0, k);
            let rest = crate::lines::copy_range(t.as_slice(), k + 2, t.len());
            if rest.len() > 0 && rest[rest.len() - 1] == ']' {
                let dir = crate::lines::copy_range(rest.as_slice(), 0, rest.len() - 1);
                assert(dir@ =~= rest@.drop_last());
                let roslyn = crate::text::chars_of("Roslyn");
                let bincore = crate::text::chars_of("bincore");
                let dll = crate::text::chars_of("csc.dll");
                let p = push_part(
                    push_part(push_part(push_part(dir, version.as_slice()), roslyn.as_slice()), bincore.as_slice()),
                    dll.as_slice(),
                );
                Some(crate::text::string_of(p.as_slice()))
            } else {
                None
            }
        },
    }
}

/// The `csc.dll` path of every SDK a `dotnet --list-sdks` listing reports,
/// in the order it reported them, newest last. A line not shaped
/// `<version> [<directory>]` is skipped.
pub fn sdk_compilers(listing: &str) -> (r: Vec<String>)
    ensures
        views(r@) == sdk_paths(lines_of(listing@)),
{
    let chars = crate::text::chars_of(listing);
    let lines = split_lines(chars.as_slice());
    let ghost ls = lines@.map_values(|l: Vec<char>| l@);
    let mut r: Vec<String> = Vec::new();
    let mut i: usize = 0;
    while i < lines.len()
        invariant
            ls == lines@.map_values(|l: Vec<char>| l@),
            ls == lines_of(listing@),
            i <= lines@.len(),
            views(r@) == sdk_paths(ls.take(i as int)),
        decreases lines@.len() - i,
    {
        let ghost before = views(r@);
        match sdk_line(lines[i].as_slice()) {
            Some(p) => {
                r.push(p);
            },
            None => {},
        }
        proof {
            assert(ls.take(i + 1).drop_last() =~= ls.take(i as int));
            assert(ls.take(i + 1).last() == lines@[i as int]@);
            assert(views(r@) =~= sdk_paths(ls.take(i + 1)));
        }
        i = i + 1;
    }
    proof {
        assert(ls.take(lines@.len() as int) =~= ls);
    }
    r
}

/// The code one line of compiler output reports: `CS` and the digits right
/// after the first `error CS`, if there are any.
pub open spec fn code_in(line: Seq<char>) -> Option<Seq<char>> {
    match find_from(line, "error CS"@, 0) {
        None => None,
        Some(k) => {
            let digits = digit_prefix(line.skip(k + 8));
            if digits.len() == 0 {
                None
            } else {
                Some("CS"@ + digits)
            }
        },
    }
}

/// The codes of a run's output lines, in line order.
pub open spec fn codes_in(lines: Seq<Seq<char>>) -> Seq<Seq<char>>
    decreases lines.len(),
{
    if lines.len() == 0 {
        Seq::empty()
    } else {
        codes_in(lines.drop_last()) + match code_in(lines.last()) {
            Some(c) => seq![c],
            None => Seq::empty(),
        }
    }
}

fn line_code(line: &[char]) -> (r: Option<String>)
    ensures
        match r {
            Some(c) => code_in(line@) == Some(c@),
            None => code_in(line@) is None,
        },
{
    let n = line.len();
    let marker = crate::text::chars_of("error CS");
    proof {
        reveal_strlit("error CS");
    }
    assert(marker@.len() == 8);
    match crate::lines::find(line, marker.as_slice()) {
        None => None,
        Some(k) => {
            let digits = crate::lines::digits_at(line, k + 8);
            if digits.len() == 0 {
                None
            } else {
                let mut c = crate::text::chars_of("CS");
                let mut j: usize = 0;
                let ghost head = c@;
                while j < digits.len()
                    invariant
                        j <= digits@.len(),
                        c@ == head + digits@.subrange(0, j as int),
                    decreases digits@.len() - j,
                {
                    c.push(digits[j]);
                    j = j + 1;
                    assert(c@ =~= head + digits@.subrange(0, j as int));
                }
                assert(digits@.subrange(0, digits@.len() as int) =~= digits@);
                Some(crate::text::string_of(c.as_slice()))
            }
        },
    }
}

/// The `error CS####` codes in a run's output, sorted, so that two runs
/// compare by equality. Positions and warnings are not part of it.
pub fn diagnostic_codes(output: &str) -> (r: Vec<String>)
    ensures
        ascending(views(r@)),
        views(r@).to_multiset() == codes_in(lines_of(output@)).to_multiset(),
{
    let chars = crate::text::chars_of(output);
    let lines = split_lines(chars.as_slice());
    let ghost ls = lines@.map_values(|l: Vec<char>| l@);
    let mut codes: Vec<String> = Vec::new();
    let mut i: usize = 0;
    while i < lines.len()
        invariant
            ls == lines@.map_values(|l: Vec<char>| l@),
            ls == lines_of(output@),
            i <= lines@.len(),
            views(codes@) == codes_in(ls.take(i as int)),
        decreases lines@.len() - i,
    {
        match line_code(lines[i].as_slice()) {
            Some(c) => {
                codes.push(c);
            },
            None => {},
        }
        proof {
            assert(ls.take(i + 1).drop_last() =~= ls.take(i as int));
            assert(ls.take(i + 1).last() == lines@[i as int]@);
            assert(views(codes@) =~= codes_in(ls.take(i + 1)));
        }
        i = i + 1;
    }
    proof {
        assert(ls.take(lines@.len() as int) =~= ls);
    }
    sort_strings(codes)
}

/// A report of a run's output.
pub fn report_of(text: String) -> (r: Report)
    ensures
        r.text@ == text@,
        ascending(views(r.codes@)),
        views(r.codes@).to_multiset() == codes_in(lines_of(text@)).to_multiset(),
{
    let codes = diagnostic_codes(text.as_str());
    Report { codes, text }
}

/// The distinct members of an ascending sequence.
pub open spec fn distinct(u: Seq<Seq<char>>) -> Seq<Seq<char>>
    decreases u.len(),
{
    if u.len() == 0 {
        Seq::empty()
    } else if u.len() >= 2 && u.last() == u[u.len() - 2] {
        distinct(u.drop_last())
    } else {
        distinct(u.drop_last()).push(u.last())
    }
}

/// One line of a difference: a count and a code.
pub open spec fn change_line(sign: Seq<char>, n: nat, code: Seq<char>) -> Seq<char> {
    sign + decimal(n) + " "@ + code
}

/// The codes of `d`, in order, whose count grew (`gained`) or shrank from
/// `before` to `after`, each rendered with the size of the change.
pub open spec fn changes(
    d: Seq<Seq<char>>,
    before: Seq<Seq<char>>,
    after: Seq<Seq<char>>,
    gained: bool,
) -> Seq<Seq<char>>
    decreases d.len(),
{
    if d.len() == 0 {
        Seq::empty()
    } else {
        let c = d.last();
        let b = count_of(before, c);
        let a = count_of(after, c);
        changes(d.drop_last(), before, after, gained) + if gained && a > b {
            seq![change_line("+"@, (a - b) as nat, c)]
        } else if !gained && a < b {
            seq![change_line("-"@, (b - a) as nat, c)]
        } else {
            Seq::empty()
        }
    }
}

/// The multiset difference between two code lists, for quoting back: every
/// code the candidate gained, then every code it lost, each in ascending
/// order of the codes over both lists.
pub open spec fn difference_of(before: Seq<Seq<char>>, after: Seq<Seq<char>>, u: Seq<Seq<char>>) -> Seq<
    Seq<char>,
> {
    changes(distinct(u), before, after, true) + changes(distinct(u), before, after, false)
}

/// How many times `c` occurs in `v`.
fn count_in(v: &Vec<String>, c: &str) -> (n: usize)
    ensures
        n == count_of(views(v@), c@),
{
    let mut n: usize = 0;
    let mut i: usize = 0;
    while i < v.len()
        invariant
            i <= v@.len(),
            n <= i,
            n == count_of(views(v@).take(i as int), c@),
        decreases v@.len() - i,
    {
        assert(views(v@).take(i + 1).drop_last() =~= views(v@).take(i as int));
        if crate::text::str_eq(v[i].as_str(), c) {
            n = n + 1;
        }
        i = i + 1;
    }
    assert(views(v@).take(v@.len() as int) =~= views(v@));
    n
}

/// `sign`, the decimal `n`, a space and `code`.
fn change_text(sign: &str, n: usize, code: &str) -> (r: String)
    ensures
        r@ == change_line(sign@, n as nat, code@),
{
    let digits = crate::text::decimal_string(n);
    String::from_str(sign).concat(digits.as_str()).concat(" ").concat(code)
}

/// The multiset difference between two code lists: what the candidate
/// gained (`+`) and what it lost (`-`), for quoting back.
pub fn difference(before: &Vec<String>, after: &Vec<String>) -> (r: Vec<String>)
    ensures
        exists|u: Seq<Seq<char>>|
            ascending(u) && u.to_multiset() == (views(before@) + views(after@)).to_multiset()
                && views(r@) == difference_of(views(before@), views(after@), u),
{
    let mut all: Vec<String> = Vec::new();
    let mut i: usize = 0;
    while i < before.len()
        invariant
            i <= before@.len(),
            views(all@) == views(before@).take(i as int),
        decreases before@.len() - i,
    {
        let ghost prior = all@;
        let item = before[i].clone();
        all.push(item);
        assert(all@ == prior.push(before@[i as int]));
        assert(views(all@) =~= views(prior).push(before@[i as int]@));
        assert(views(before@).take(i + 1) =~= views(before@).take(i as int).push(before@[i as int]@));
        i = i + 1;
    }
    let mut j: usize = 0;
    while j < after.len()
        invariant
            i == before@.len(),
            j <= after@.len(),
            views(all@) == views(before@) + views(after@).take(j as int),
        decreases after@.len() - j,
    {
        let ghost prior = all@;
        let item = after[j].clone();
        all.push(item);
        assert(all@ == prior.push(after@[j as int]));
        assert(views(all@) =~= views(prior).push(after@[j as int]@));
        assert(views(after@).take(j + 1) =~= views(after@).take(j as int).push(after@[j as int]@));
        assert(views(before@) + views(after@).take(j + 1) =~= (views(before@) + views(after@).take(
            j as int,
        )).push(after@[j as int]@));
        j = j + 1;
    }
    assert(views(before@).take(before@.len() as int) =~= views(before@));
    assert(views(after@).take(after@.len() as int) =~= views(after@));
    let u = sort_strings(all);
    let ghost us = views(u@);
    // The distinct codes, in ascending order.
    let mut d: Vec<String> = Vec::new();
    let mut k: usize = 0;
    while k < u.len()
        invariant
            us == views(u@),
            k <= u@.len(),
            views(d@) == distinct(us.take(k as int)),
        decreases u@.len() - k,
    {
        let repeat = k > 0 && crate::text::str_eq(u[k].as_str(), u[k - 1].as_str());
        if !repeat {
            d.push(u[k].clone());
        }
        proof {
            let t = us.take(k + 1);
            assert(t.drop_last() =~= us.take(k as int));
            assert(t.last() == us[k as int]);
            if k > 0 {
                assert(t[t.len() - 2] == us[k - 1]);
            }
            assert(views(d@) =~= distinct(t));
        }
        k = k + 1;
    }
    assert(us.take(u@.len() as int) =~= us);
    let ghost ds = views(d@);
    let mut r: Vec<String> = Vec::new();
    let mut pass: usize = 0;
    while pass < 2
        invariant
            ds == views(d@),
            pass <= 2,
            pass == 0 ==> views(r@) == Seq::<Seq<char>>::empty(),
            pass == 1 ==> views(r@) == changes(ds, views(before@), views(after@), true),
            pass == 2 ==> views(r@) == changes(ds, views(before@), views(after@), true) + changes(
                ds,
                views(before@),
                views(after@),
                false,
            ),
        decreases 2 - pass,
    {
        let gained = pass == 0;
        let ghost base = views(r@);
        let mut m: usize = 0;
        while m < d.len()
            invariant
                ds == views(d@),
                m <= d@.len(),
                views(r@) == base + changes(ds.take(m as int), views(before@), views(after@), gained),
            decreases d@.len() - m,
        {
            let code = d[m].as_str();
            let b = count_in(before, code);
            let a = count_in(after, code);
            let ghost prior = views(r@);
            if gained && a > b {
                r.push(change_text("+", a - b, code));
            } else if !gained && a < b {
                r.push(change_text("-", b - a, code));
            }
            proof {
                let t = ds.take(m + 1);
                let c = ds[m as int];
                assert(code@ == c);
                assert(t.drop_last() =~= ds.take(m as int));
                assert(t.last() == c);
                let step: Seq<Seq<char>> = if gained && a > b {
                    seq![change_line("+"@, (a - b) as nat, c)]
                } else if !gained && a < b {
                    seq![change_line("-"@, (b - a) as nat, c)]
                } else {
                    Seq::empty()
                };
                assert(changes(t, views(before@), views(after@), gained) == changes(
                    ds.take(m as int),
                    views(before@),
                    views(after@),
                    gained,
                ) + step);
                assert(views(r@) =~= prior + step);
                assert(views(r@) =~= base + changes(t, views(before@), views(after@), gained));
            }
            m = m + 1;
        }
        assert(ds.take(d@.len() as int) =~= ds);
        assert(Seq::<Seq<char>>::empty() + changes(ds, views(before@), views(after@), true)
            =~= changes(ds, views(before@), views(after@), true));
        pass = pass + 1;
    }
    proof {
        assert(ascending(us) && us.to_multiset() == (views(before@) + views(after@)).to_multiset()
            && views(r@) == difference_of(views(before@), views(after@), us));
    }
    r
}

/// The self-test codes as strings.
fn self_test_codes() -> (r: Vec<String>)
    ensures
        views(r@) == seq!["CS0246"@, "CS0518"@, "CS0656"@],
{
    let mut r: Vec<String> = Vec::new();
    r.push(String::from_str("CS0246"));
    r.push(String::from_str("CS0518"));
    r.push(String::from_str("CS0656"));
    assert(views(r@) =~= seq!["CS0246"@, "CS0518"@, "CS0656"@]);
    r
}

/// Whether `c` is among `codes`.
fn holds(codes: &Vec<String>, c: &str) -> (r: bool)
    ensures
        r == views(codes@).contains(c@),
{
    let mut i: usize = 0;
    while i < codes.len()
        invariant
            i <= codes@.len(),
            forall|j: int| 0 <= j < i ==> views(codes@)[j] != c@,
        decreases codes@.len() - i,
    {
        if crate::text::str_eq(codes[i].as_str(), c) {
            assert(views(codes@)[i as int] == c@);
            return true;
        }
        i = i + 1;
    }
    false
}

/// Whether two code lists are the same.
fn same_codes(a: &Vec<String>, b: &Vec<String>) -> (r: bool)
    ensures
        r == (views(a@) == views(b@)),
{
    if a.len() != b.len() {
        assert(views(a@).len() != views(b@).len());
        return false;
    }
    let mut i: usize = 0;
    while i < a.len()
        invariant
            a@.len() == b@.len(),
            i <= a@.len(),
            forall|j: int| 0 <= j < i ==> views(a@)[j] == views(b@)[j],
        decreases a@.len() - i,
    {
        if !crate::text::str_eq(a[i].as_str(), b[i].as_str()) {
            assert(views(a@)[i as int] != views(b@)[i as int]);
            return false;
        }
        i = i + 1;
    }
    assert(views(a@) =~= views(b@));
    true
}

/// The head of every message saying the check cannot be trusted.
pub open spec fn distrust_head() -> Seq<char> {
    "external verification cannot trust `"@
}

/// The codes the self-test file is known to provoke.
pub open spec fn expected_codes() -> Seq<Seq<char>> {
    seq!["CS0246"@, "CS0518"@, "CS0656"@]
}

/// Whether a report of the self-test file holds every expected code.
pub open spec fn all_expected(codes: Seq<Seq<char>>) -> bool {
    codes.contains("CS0246"@) && codes.contains("CS0518"@) && codes.contains("CS0656"@)
}

/// The message when the self-test file did not report every expected code.
pub open spec fn unread_message(invocation: Seq<char>, before: Report) -> Seq<char> {
    distrust_head() + invocation
        + "`: its self-test file \u{2014} valid C# in which nothing resolves \u{2014} was expected to report "@
        + joined(expected_codes(), " "@) + " and reported "@ + joined(views(before.codes@), " "@)
        + " instead, so this SDK's diagnostics are no longer being read and every file would compare equal to every other: "@
        + before.text@
}

/// The message when the self-test pair reported different codes.
pub open spec fn uncancelled_message(invocation: Seq<char>, before: Report, after: Report) -> Seq<
    char,
> {
    distrust_head() + invocation
        + "`: its self-test pair \u{2014} the same file before and after this backend's own minimization \u{2014} reported "@
        + joined(views(before.codes@), " "@) + " and "@ + joined(views(after.codes@), " "@)
        + ", so the semantic noise this check relies on cancelling no longer cancels: "@
        + after.text@
}

/// The verdict on the self-test file's report: the check can be trusted
/// only if every expected code was read.
pub fn judge_self_test_file(invocation: &str, before: &Report) -> (r: Result<(), Error>)
    ensures
        r is Ok <==> all_expected(views(before.codes@)),
        r matches Err(e) ==> (e matches Error::Verification(m) && m@ == unread_message(
            invocation@,
            *before,
        )),
{
    let all_seen = holds(&before.codes, "CS0246") && holds(&before.codes, "CS0518") && holds(
        &before.codes,
        "CS0656",
    );
    if all_seen {
        return Ok(());
    }
    let expected = self_test_codes();
    let m = String::from_str("external verification cannot trust `").concat(invocation).concat(
        "`: its self-test file \u{2014} valid C# in which nothing resolves \u{2014} was expected to report ",
    ).concat(join(&expected, " ").as_str()).concat(" and reported ").concat(
        join(&before.codes, " ").as_str(),
    ).concat(
        " instead, so this SDK's diagnostics are no longer being read and every file would compare equal to every other: ",
    ).concat(before.text.as_str());
    Err(Error::Verification(m))
}

/// The verdict on the self-test pair's reports: the file and its minimized
/// twin must report the same codes.
pub fn judge_self_test_pair(invocation: &str, before: &Report, after: &Report) -> (r: Result<
    (),
    Error,
>)
    ensures
        r is Ok <==> views(before.codes@) == views(after.codes@),
        r matches Err(e) ==> (e matches Error::Verification(m) && m@ == uncancelled_message(
            invocation@,
            *before,
            *after,
        )),
{
    if same_codes(&before.codes, &after.codes) {
        return Ok(());
    }
    let m = String::from_str("external verification cannot trust `").concat(invocation).concat(
        "`: its self-test pair \u{2014} the same file before and after this backend's own minimization \u{2014} reported ",
    ).concat(join(&before.codes, " ").as_str()).concat(" and ").concat(
        join(&after.codes, " ").as_str(),
    ).concat(
        ", so the semantic noise this check relies on cancelling no longer cancels: ",
    ).concat(after.text.as_str());
    Err(Error::Verification(m))
}

/// The message when the output's codes differ from the original's, quoting
/// the difference `changed`.
pub open spec fn changed_message(invocation: Seq<char>, changed: Seq<Seq<char>>, after: Report) -> Seq<
    char,
> {
    "external check failed ("@ + invocation
        + "): `csc` reports different diagnostics for the output than for the input ("@
        + joined(changed, ", "@) + "), so formatting changed what the compiler sees: "@
        + after.text@
}

/// The verdict on the reports of the original and the output: accepted
/// exactly when their codes are equal, otherwise rejected quoting the
/// multiset difference and the output's report.
pub fn judge_reports(invocation: &str, before: &Report, after: &Report) -> (r: Result<(), Error>)
    ensures
        r is Ok <==> views(before.codes@) == views(after.codes@),
        r matches Err(e) ==> (e matches Error::Verification(m) && exists|u: Seq<Seq<char>>|
            ascending(u) && u.to_multiset() == (views(before.codes@)
                + views(after.codes@)).to_multiset() && m@ == changed_message(
                invocation@,
                difference_of(views(before.codes@), views(after.codes@), u),
                *after,
            )),
{
    if same_codes(&before.codes, &after.codes) {
        return Ok(());
    }
    let changed = difference(&before.codes, &after.codes);
    let m = String::from_str("external check failed (").concat(invocation).concat(
        "): `csc` reports different diagnostics for the output than for the input (",
    ).concat(join(&changed, ", ").as_str()).concat(
        "), so formatting changed what the compiler sees: ",
    ).concat(after.text.as_str());
    Err(Error::Verification(m))
}

proof fn lemma_head_prefix(head: Seq<char>, rest: Seq<char>, m: Seq<char>)
    requires
        m == head + rest,
    ensures
        is_prefix_chars(head, m),
{
    lemma_prefix_concat(head, rest);
}

/// `b` is the report of the compiler output `text`: the output itself, and
/// the codes its `error CS####` lines name, sorted.
pub open spec fn report_from(b: Report, text: Seq<char>) -> bool {
    &&& b.text@ == text
    &&& ascending(views(b.codes@))
    &&& views(b.codes@).to_multiset() == codes_in(lines_of(text)).to_multiset()
}

/// The command line of `c`, as [`Compiler::invocation`] renders it.
pub open spec fn invocation_of(c: Compiler) -> Seq<char> {
    c.program@ + " "@ + c.csc@ + " /nologo /noconfig /nostdlib+ /t:library /langversion:latest"@
}

/// The answers on which the self-test passes: the self-test file reports
/// every expected code, and its minimized twin reports the same codes.
pub open spec fn self_test_passes<T: CscTools>(tools: T, c: Compiler) -> bool {
    exists|t1: String, t2: String, b1: Report, b2: Report|
        #![trigger tools.compiles(c, SELF_TEST_NAME@, SELF_TEST_SOURCE@, Ok(t1)), tools.compiles(c, SELF_TEST_MINIMIZED_NAME@, SELF_TEST_MINIMIZED@, Ok(t2)), report_from(b1, t1@), report_from(b2, t2@)]
        tools.compiles(c, SELF_TEST_NAME@, SELF_TEST_SOURCE@, Ok(t1)) && tools.compiles(
            c,
            SELF_TEST_MINIMIZED_NAME@,
            SELF_TEST_MINIMIZED@,
            Ok(t2),
        ) && report_from(b1, t1@) && report_from(b2, t2@) && all_expected(views(b1.codes@))
            && views(b1.codes@) == views(b2.codes@)
}

/// The answers on which the self-test refuses to trust `c`, with message
/// `m`: the self-test file's report lacks an expected code; or it has them
/// all and its minimized twin reports other codes.
pub open spec fn self_test_refuses<T: CscTools>(tools: T, c: Compiler, m: Seq<char>) -> bool {
    ||| exists|t1: String, b1: Report|
        #![trigger tools.compiles(c, SELF_TEST_NAME@, SELF_TEST_SOURCE@, Ok(t1)), report_from(b1, t1@)]
        tools.compiles(c, SELF_TEST_NAME@, SELF_TEST_SOURCE@, Ok(t1)) && report_from(b1, t1@)
            && !all_expected(views(b1.codes@)) && m == unread_message(invocation_of(c), b1)
    ||| exists|t1: String, t2: String, b1: Report, b2: Report|
        #![trigger tools.compiles(c, SELF_TEST_NAME@, SELF_TEST_SOURCE@, Ok(t1)), tools.compiles(c, SELF_TEST_MINIMIZED_NAME@, SELF_TEST_MINIMIZED@, Ok(t2)), report_from(b1, t1@), report_from(b2, t2@)]
        tools.compiles(c, SELF_TEST_NAME@, SELF_TEST_SOURCE@, Ok(t1)) && tools.compiles(
            c,
            SELF_TEST_MINIMIZED_NAME@,
            SELF_TEST_MINIMIZED@,
            Ok(t2),
        ) && report_from(b1, t1@) && report_from(b2, t2@) && all_expected(views(b1.codes@))
            && views(b1.codes@) != views(b2.codes@) && m == uncancelled_message(
            invocation_of(c),
            b1,
            b2,
        )
}

/// The answers on which the self-test cannot be carried out: compiling the
/// self-test file failed, or compiling its twin did once the file's report
/// held every expected code.
pub open spec fn self_test_unreachable<T: CscTools>(tools: T, c: Compiler) -> bool {
    ||| exists|e: Error| #[trigger] tools.compiles(c, SELF_TEST_NAME@, SELF_TEST_SOURCE@, Err(e))
    ||| exists|t1: String, b1: Report, e: Error|
        #![trigger tools.compiles(c, SELF_TEST_NAME@, SELF_TEST_SOURCE@, Ok(t1)), report_from(b1, t1@), tools.compiles(c, SELF_TEST_MINIMIZED_NAME@, SELF_TEST_MINIMIZED@, Err(e))]
        tools.compiles(c, SELF_TEST_NAME@, SELF_TEST_SOURCE@, Ok(t1)) && report_from(b1, t1@)
            && all_expected(views(b1.codes@)) && tools.compiles(
            c,
            SELF_TEST_MINIMIZED_NAME@,
            SELF_TEST_MINIMIZED@,
            Err(e),
        )
}

/// Tests the check before it is trusted: `SELF_TEST_SOURCE` is compiled as
/// `SELF_TEST_NAME`, and its report judged by [`judge_self_test_file`]; only
/// then is `SELF_TEST_MINIMIZED` compiled as `SELF_TEST_MINIMIZED_NAME`, and
/// the pair judged by [`judge_self_test_pair`]. A failure of the tools is an
/// I/O error.
pub fn self_test<T: CscTools>(tools: &T, compiler: &Compiler) -> (r: Result<(), Error>)
    ensures
        r is Ok ==> self_test_passes(*tools, *compiler),
        r matches Err(Error::Verification(m)) ==> self_test_refuses(*tools, *compiler, m@),
        r matches Err(Error::Io(_)) ==> self_test_unreachable(*tools, *compiler),
        r matches Err(Error::Verification(m)) ==> is_prefix_chars(distrust_head(), m@),
        r matches Err(e) ==> e is Verification || e is Io,
{
    let invocation = compiler.invocation();
    let first = tools.compile(compiler, SELF_TEST_NAME, SELF_TEST_SOURCE);
    let text = match first {
        Ok(text) => text,
        Err(e) => {
            assert(tools.compiles(*compiler, SELF_TEST_NAME@, SELF_TEST_SOURCE@, Err(e)));
            return Err(io_only(e));
        },
    };
    let ghost t1 = text;
    let before = report_of(text);
    assert(report_from(before, t1@));
    assert(tools.compiles(*compiler, SELF_TEST_NAME@, SELF_TEST_SOURCE@, Ok(t1)));
    match judge_self_test_file(invocation.as_str(), &before) {
        Ok(()) => {},
        Err(e) => {
            proof {
                reveal_strlit("external verification cannot trust `");
                let m = unread_message(invocation@, before);
                assert(m =~= distrust_head() + m.skip(distrust_head().len() as int));
                lemma_head_prefix(distrust_head(), m.skip(distrust_head().len() as int), m);
            }
            return Err(e);
        },
    }
    let second = tools.compile(compiler, SELF_TEST_MINIMIZED_NAME, SELF_TEST_MINIMIZED);
    let text2 = match second {
        Ok(text) => text,
        Err(e) => {
            assert(tools.compiles(
                *compiler,
                SELF_TEST_MINIMIZED_NAME@,
                SELF_TEST_MINIMIZED@,
                Err(e),
            ));
            return Err(io_only(e));
        },
    };
    let ghost t2 = text2;
    let after = report_of(text2);
    assert(report_from(after, t2@));
    assert(tools.compiles(*compiler, SELF_TEST_MINIMIZED_NAME@, SELF_TEST_MINIMIZED@, Ok(t2)));
    let r = judge_self_test_pair(invocation.as_str(), &before, &after);
    proof {
        if r is Err {
            reveal_strlit("external verification cannot trust `");
            let m = uncancelled_message(invocation@, before, after);
            assert(m =~= distrust_head() + m.skip(distrust_head().len() as int));
            lemma_head_prefix(distrust_head(), m.skip(distrust_head().len() as int), m);
        }
    }
    r
}

/// The message when no SDK with a compiler is found.
pub open spec fn missing_message() -> Seq<char> {
    "external verification needs the .NET SDK: no `dotnet` on PATH reporting an SDK with a Roslyn `csc.dll` was found"@
}

/// Whether `tools` may answer the probe for `dotnet` with `found`.
pub open spec fn csc_found<T: CscTools>(tools: T, found: Option<Compiler>) -> bool {
    tools.finds(strs(DOTNET_NAMES@), found)
}

/// The answers on which the output is accepted: the original and the output
/// compile to reports with the same codes.
pub open spec fn csc_accepts<T: CscTools>(
    tools: T,
    c: Compiler,
    original: Seq<char>,
    code: Seq<char>,
) -> bool {
    exists|t3: String, t4: String, b3: Report, b4: Report|
        #![trigger tools.compiles(c, ORIGINAL_NAME@, original, Ok(t3)), tools.compiles(c, FORMATTED_NAME@, code, Ok(t4)), report_from(b3, t3@), report_from(b4, t4@)]
        tools.compiles(c, ORIGINAL_NAME@, original, Ok(t3)) && tools.compiles(
            c,
            FORMATTED_NAME@,
            code,
            Ok(t4),
        ) && report_from(b3, t3@) && report_from(b4, t4@) && views(b3.codes@) == views(
            b4.codes@,
        )
}

/// The answers on which the output is rejected with message `m`: the
/// original's and the output's codes differ, and `m` quotes the multiset
/// difference and the output's report.
pub open spec fn csc_rejects<T: CscTools>(
    tools: T,
    c: Compiler,
    m: Seq<char>,
    original: Seq<char>,
    code: Seq<char>,
) -> bool {
    exists|t3: String, t4: String, b3: Report, b4: Report, u: Seq<Seq<char>>|
        #![trigger tools.compiles(c, ORIGINAL_NAME@, original, Ok(t3)), tools.compiles(c, FORMATTED_NAME@, code, Ok(t4)), report_from(b3, t3@), report_from(b4, t4@), ascending(u)]
        tools.compiles(c, ORIGINAL_NAME@, original, Ok(t3)) && tools.compiles(
            c,
            FORMATTED_NAME@,
            code,
            Ok(t4),
        ) && report_from(b3, t3@) && report_from(b4, t4@) && views(b3.codes@) != views(
            b4.codes@,
        ) && ascending(u) && u.to_multiset() == (views(b3.codes@)
            + views(b4.codes@)).to_multiset() && m == changed_message(
            invocation_of(c),
            difference_of(views(b3.codes@), views(b4.codes@), u),
            b4,
        )
}

/// The answers on which the comparison cannot be carried out: compiling the
/// original failed, or compiling the output did after the original compiled.
pub open spec fn csc_unreachable<T: CscTools>(
    tools: T,
    c: Compiler,
    original: Seq<char>,
    code: Seq<char>,
) -> bool {
    ||| exists|e: Error| #[trigger] tools.compiles(c, ORIGINAL_NAME@, original, Err(e))
    ||| exists|t3: String, e: Error|
        #![trigger tools.compiles(c, ORIGINAL_NAME@, original, Ok(t3)), tools.compiles(c, FORMATTED_NAME@, code, Err(e))]
        tools.compiles(c, ORIGINAL_NAME@, original, Ok(t3)) && tools.compiles(
            c,
            FORMATTED_NAME@,
            code,
            Err(e),
        )
}

/// The answers on which the whole check passes: a compiler is found, it
/// passes the self-test, and the output's codes are the original's.
pub open spec fn csc_passes<T: CscTools>(tools: T, original: Seq<char>, code: Seq<char>) -> bool {
    exists|c: Compiler|
        #[trigger] csc_found(tools, Some(c)) && self_test_passes(tools, c) && csc_accepts(
            tools,
            c,
            original,
            code,
        )
}

/// Runs `csc`'s diagnostic-multiset check over `code`, the formatted
/// output, through `tools`: the self-test pair first, then `original`, as
/// `original.cs`, whose codes are the baseline, then `code`, as
/// `formatted.cs`. The output is accepted exactly when its codes equal the
/// original's.
pub fn check<T: CscTools>(tools: &T, original: &str, code: &str) -> (r: Result<(), Error>)
    ensures
        r is Ok ==> csc_passes(*tools, original@, code@),
        r matches Err(Error::Verification(m)) ==> (csc_found(*tools, None) && m@
            == missing_message()) || (exists|c: Compiler|
            #[trigger] csc_found(*tools, Some(c)) && self_test_refuses(*tools, c, m@)) || (exists|
            c: Compiler,
        |
            #[trigger] csc_found(*tools, Some(c)) && self_test_passes(*tools, c) && csc_rejects(
                *tools,
                c,
                m@,
                original@,
                code@,
            )),
        r matches Err(Error::Io(_)) ==> exists|c: Compiler|
            #[trigger] csc_found(*tools, Some(c)) && (self_test_unreachable(*tools, c) || (
            self_test_passes(*tools, c) && csc_unreachable(*tools, c, original@, code@))),
        r matches Err(Error::Verification(m)) ==> m@ == missing_message() || is_prefix_chars(
            distrust_head(),
            m@,
        ) || is_prefix_chars("external check failed ("@, m@),
        r matches Err(e) ==> e is Verification || e is Io,
{
    let compiler = match tools.locate(&DOTNET_NAMES) {
        Some(c) => c,
        None => {
            return Err(
                Error::Verification(
                    String::from_str(
                        "external verification needs the .NET SDK: no `dotnet` on PATH reporting an SDK with a Roslyn `csc.dll` was found",
                    ),
                ),
            );
        },
    };
    assert(csc_found(*tools, Some(compiler)));
    match self_test(tools, &compiler) {
        Ok(()) => {},
        Err(e) => return Err(e),
    }
    let first = tools.compile(&compiler, ORIGINAL_NAME, original);
    let text = match first {
        Ok(text) => text,
        Err(e) => {
            assert(tools.compiles(compiler, ORIGINAL_NAME@, original@, Err(e)));
            return Err(io_only(e));
        },
    };
    let ghost t3 = text;
    let before = report_of(text);
    assert(report_from(before, t3@));
    assert(tools.compiles(compiler, ORIGINAL_NAME@, original@, Ok(t3)));
    let second = tools.compile(&compiler, FORMATTED_NAME, code);
    let text2 = match second {
        Ok(text) => text,
        Err(e) => {
            assert(tools.compiles(compiler, FORMATTED_NAME@, code@, Err(e)));
            return Err(io_only(e));
        },
    };
    let ghost t4 = text2;
    let after = report_of(text2);
    assert(report_from(after, t4@));
    assert(tools.compiles(compiler, FORMATTED_NAME@, code@, Ok(t4)));
    let invocation = compiler.invocation();
    let r = judge_reports(invocation.as_str(), &before, &after);
    proof {
        if r is Err {
            reveal_strlit("external check failed (");
            let p = "external check failed ("@;
            let u = choose|u: Seq<Seq<char>>|
                ascending(u) && u.to_multiset() == (views(before.codes@)
                    + views(after.codes@)).to_multiset() && r->Err_0->Verification_0@
                    == changed_message(
                    invocation@,
                    difference_of(views(before.codes@), views(after.codes@), u),
                    after,
                );
            let m = r->Err_0->Verification_0@;
            assert(m =~= p + m.skip(p.len() as int));
            lemma_head_prefix(p, m.skip(p.len() as int), m);
            assert(ascending(u));
            assert(csc_rejects(*tools, compiler, m, original@, code@));
        } else {
            assert(csc_accepts(*tools, compiler, original@, code@));
        }
    }
    r
}

} // verus!
