//! The formatter interface and the outcome of formatting one file.
use vstd::prelude::*;
use crate::error::Error;
use crate::options::FormatOptions;

verus! {

/// Outcome of formatting one source file.
#[derive(Clone, Debug)]
pub struct FormatResult {
    pub code: String,
    pub original_tokens: usize,
    pub formatted_tokens: usize,
}

/// `a - b`, or zero when `b` exceeds `a`.
pub open spec fn saturating_sub(a: int, b: int) -> int {
    if a >= b {
        a - b
    } else {
        0
    }
}

impl FormatResult {
    /// Tokens the rewrite saved; zero when the output grew.
    pub fn tokens_saved(&self) -> (r: usize)
        ensures
            r == saturating_sub(self.original_tokens as int, self.formatted_tokens as int),
    {
        if self.original_tokens >= self.formatted_tokens {
            self.original_tokens - self.formatted_tokens
        } else {
            0
        }
    }
}

impl PartialEq for FormatResult {
    fn eq(&self, other: &Self) -> (r: bool) {
        crate::text::str_eq(self.code.as_str(), other.code.as_str()) && self.original_tokens
            == other.original_tokens && self.formatted_tokens == other.formatted_tokens
    }
}

impl vstd::std_specs::cmp::PartialEqSpecImpl for FormatResult {
    open spec fn obeys_eq_spec() -> bool {
        true
    }

    open spec fn eq_spec(&self, other: &Self) -> bool {
        self.code@ == other.code@ && self.original_tokens == other.original_tokens
            && self.formatted_tokens == other.formatted_tokens
    }
}

/// A language-specific formatter. Implementations hold their own
/// language-level configuration.
pub trait Formatter {
    /// Language name shown to users, e.g. `"python"`.
    fn language(&self) -> &'static str;

    /// Whether this formatter handles the given path.
    fn supports(&self, path: &str) -> bool;

    /// Formats `source`, returning token-minimized code that passed the
    /// verification level in `options`.
    fn format(&self, path: &str, source: &str, options: &FormatOptions) -> Result<
        FormatResult,
        Error,
    >;
}

} // verus!
