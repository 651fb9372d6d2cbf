//! Token counting for the supported LLM vocabularies.
use vstd::prelude::*;
use crate::error::Error;

verus! {

/// Counts tokens for a specific LLM vocabulary. Formatters only need
/// [`Tokenizer::count`] to report what a rewrite saved.
pub trait Tokenizer {
    fn name(&self) -> &str;

    fn count(&self, text: &str) -> usize;
}

/// A named, loadable vocabulary.
#[derive(Clone, Copy, Debug, PartialEq, Eq, Structural)]
pub enum TokenizerKind {
    O200kBase,
    Cl100kBase,
}

impl Default for TokenizerKind {
    fn default() -> (r: Self)
        ensures
            r == TokenizerKind::O200kBase,
    {
        TokenizerKind::O200kBase
    }
}

/// The name the command line uses for a vocabulary.
pub open spec fn kind_name(kind: TokenizerKind) -> Seq<char> {
    match kind {
        TokenizerKind::O200kBase => "o200k_base"@,
        TokenizerKind::Cl100kBase => "cl100k_base"@,
    }
}

/// How many tokens `o200k_base` splits `text` into.
pub uninterp spec fn o200k_token_count(text: Seq<char>) -> nat;

/// How many tokens `cl100k_base` splits `text` into.
pub uninterp spec fn cl100k_token_count(text: Seq<char>) -> nat;

/// How many tokens the vocabulary `kind` splits `text` into.
pub open spec fn token_count(kind: TokenizerKind, text: Seq<char>) -> nat {
    match kind {
        TokenizerKind::O200kBase => o200k_token_count(text),
        TokenizerKind::Cl100kBase => cl100k_token_count(text),
    }
}

/// `tiktoken_rs::o200k_base_singleton().encode_ordinary(text).len()`: the
/// number of tokens in the ordinary (no special tokens) encoding of `text`
/// under the embedded `o200k_base` vocabulary. Claimed: the count is a
/// function of the text alone, and the empty text has none.
#[verifier::external_body]
fn o200k_count(text: &str) -> (n: usize)
    ensures
        n == o200k_token_count(text@),
        text@.len() == 0 ==> n == 0,
{
    tiktoken_rs::o200k_base_singleton().encode_ordinary(text).len()
}

/// `tiktoken_rs::cl100k_base_singleton().encode_ordinary(text).len()`, the
/// same count under the embedded `cl100k_base` vocabulary.
#[verifier::external_body]
fn cl100k_count(text: &str) -> (n: usize)
    ensures
        n == cl100k_token_count(text@),
        text@.len() == 0 ==> n == 0,
{
    tiktoken_rs::cl100k_base_singleton().encode_ordinary(text).len()
}

impl TokenizerKind {
    /// Resolves a command-line name like `"o200k_base"`.
    pub fn from_name(name: &str) -> (r: Result<Self, Error>)
        ensures
            match r {
                Ok(kind) => kind_name(kind) == name@,
                Err(e) => e matches Error::UnknownTokenizer(s) && s@ == name@
                    && name@ != "o200k_base"@ && name@ != "cl100k_base"@,
            },
    {
        if crate::text::str_eq(name, "o200k_base") {
            Ok(TokenizerKind::O200kBase)
        } else if crate::text::str_eq(name, "cl100k_base") {
            Ok(TokenizerKind::Cl100kBase)
        } else {
            Err(Error::UnknownTokenizer(String::from_str(name)))
        }
    }

    /// The command-line name of this vocabulary.
    pub fn name(self) -> (r: &'static str)
        ensures
            r@ == kind_name(self),
    {
        match self {
            TokenizerKind::O200kBase => "o200k_base",
            TokenizerKind::Cl100kBase => "cl100k_base",
        }
    }

    /// A counter for this vocabulary. The vocabulary data is loaded once per
    /// process and shared.
    pub fn load(self) -> (t: Tiktoken)
        ensures
            t.kind == self,
    {
        Tiktoken { kind: self }
    }
}

/// A tiktoken vocabulary, ready to count.
#[derive(Clone, Copy, Debug)]
pub struct Tiktoken {
    pub kind: TokenizerKind,
}

impl Tokenizer for Tiktoken {
    fn name(&self) -> (r: &str)
        ensures
            r@ == kind_name(self.kind),
    {
        self.kind.name()
    }

    fn count(&self, text: &str) -> (n: usize)
        ensures
            n == token_count(self.kind, text@),
            text@.len() == 0 ==> n == 0,
    {
        match self.kind {
            TokenizerKind::O200kBase => o200k_count(text),
            TokenizerKind::Cl100kBase => cl100k_count(text),
        }
    }
}

} // verus!
