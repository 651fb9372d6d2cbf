//! What the external verifications share: the verdict of one checker
//! run and the seam to the processes a check drives.
use vstd::prelude::*;
use crate::error::Error;

verus! {

/// What one checker run concluded.
#[derive(Debug)]
pub enum Outcome {
    Pass,
    /// The checker rejected the file; carries its own diagnostics.
    Fail(String),
}

/// Arguments as plain values.
pub open spec fn strs(args: Seq<&str>) -> Seq<Seq<char>> {
    args.map_values(|a: &str| a@)
}

/// A probe's answer as a plain value.
pub open spec fn found_view(found: Option<String>) -> Option<Seq<char>> {
    match found {
        Some(p) => Some(p@),
        None => None,
    }
}

/// The seam between a check's decisions and the processes it drives. An
/// implementation owns one private scratch directory per check. What the
/// machine answers is not described: each method's result is one of the
/// answers the implementation may give to that request, which is what lets
/// a check's contract say which requests it made and what it concluded
/// from the answers. An implementation that does not say which answers it
/// gives may give any.
pub trait Tools {
    /// Whether `found` is an answer this toolchain may give when asked for
    /// the first of `candidates` that starts with the arguments `probe`.
    closed spec fn locates(
        &self,
        candidates: Seq<Seq<char>>,
        probe: Seq<Seq<char>>,
        found: Option<Seq<char>>,
    ) -> bool {
        true
    }

    /// Whether `result` is an answer this toolchain may give when `contents`
    /// is written to the file `name` of its scratch directory and
    /// `program args... file` is run over it.
    closed spec fn judges(
        &self,
        program: Seq<char>,
        args: Seq<Seq<char>>,
        name: Seq<char>,
        contents: Seq<char>,
        result: Result<Outcome, Error>,
    ) -> bool {
        true
    }

    /// The first of `candidates` that can actually be started with the
    /// arguments `probe`, or `None` when none of them can.
    fn locate(&self, candidates: &[&str], probe: &[&str]) -> (r: Option<String>)
        ensures
            self.locates(strs(candidates@), strs(probe@), found_view(r)),
    ;

    /// Writes `contents` to the file `name` of the private scratch directory,
    /// runs `program args... file` over it and reports its verdict. `Err`
    /// means the file could not be written or the process not run at all.
    fn check_file(&self, program: &str, args: &[&str], name: &str, contents: &str) -> (r: Result<
        Outcome,
        Error,
    >)
        ensures
            self.judges(program@, strs(args@), name@, contents@, r),
    ;
}

/// A machine with no checker at all: nothing can be located, so a check that
/// needs one reports it missing.
#[derive(Clone, Copy, Debug)]
pub struct NoToolchain;

impl Tools for NoToolchain {
    open spec fn locates(
        &self,
        candidates: Seq<Seq<char>>,
        probe: Seq<Seq<char>>,
        found: Option<Seq<char>>,
    ) -> bool {
        found is None
    }

    open spec fn judges(
        &self,
        program: Seq<char>,
        args: Seq<Seq<char>>,
        name: Seq<char>,
        contents: Seq<char>,
        result: Result<Outcome, Error>,
    ) -> bool {
        result matches Err(e) && e matches Error::Io(m) && m@ == "no checker can be started"@
    }

    fn locate(&self, _candidates: &[&str], _probe: &[&str]) -> (r: Option<String>) {
        None
    }

    fn check_file(&self, _program: &str, _args: &[&str], _name: &str, _contents: &str) -> (r:
        Result<Outcome, Error>) {
        Err(Error::Io(String::from_str("no checker can be started")))
    }
}

/// Whether the checker's verdict on the original settles the check: an
/// original the checker already rejects is not the formatter's fault, so
/// the check passes and the output is not run at all; an original it accepts
/// leaves the output to be judged.
pub fn settled_by_original(before: &Outcome) -> (r: bool)
    ensures
        r == (*before is Fail),
{
    match before {
        Outcome::Fail(_) => true,
        Outcome::Pass => false,
    }
}

/// `a` followed by `b`.
pub fn join2(a: &str, b: &str) -> (r: String)
    ensures
        r@ == a@ + b@,
{
    String::from_str(a).concat(b)
}

/// `a`, `b` and `c` in a row.
pub fn join3(a: &str, b: &str, c: &str) -> (r: String)
    ensures
        r@ == a@ + b@ + c@,
{
    String::from_str(a).concat(b).concat(c)
}

/// `a`, `b`, `c` and `d` in a row.
pub fn join4(a: &str, b: &str, c: &str, d: &str) -> (r: String)
    ensures
        r@ == a@ + b@ + c@ + d@,
{
    String::from_str(a).concat(b).concat(c).concat(d)
}

} // verus!
