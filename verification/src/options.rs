//! Language-independent formatting options.
use vstd::prelude::*;
use crate::tokenizer::TokenizerKind;

verus! {

/// How strictly the output is checked before it is accepted. Output failing
/// the selected level is discarded with a verification error.
#[derive(Clone, Copy, Debug, PartialEq, Eq, Structural)]
pub enum VerifyLevel {
    /// Re-parse the output only.
    Reparse,
    /// Re-parse and compare normalized syntax trees or token streams.
    AstEquiv,
    /// The built-in comparison, then the language's own toolchain where a
    /// backend has one.
    External,
}

impl Default for VerifyLevel {
    fn default() -> (r: Self)
        ensures
            r == VerifyLevel::AstEquiv,
    {
        VerifyLevel::AstEquiv
    }
}

/// Language-independent formatting options.
#[derive(Clone, Copy, Debug)]
pub struct FormatOptions {
    pub tokenizer: TokenizerKind,
    pub verify: VerifyLevel,
}

impl Default for FormatOptions {
    fn default() -> (r: Self)
        ensures
            r.tokenizer == TokenizerKind::O200kBase,
            r.verify == VerifyLevel::AstEquiv,
    {
        FormatOptions { tokenizer: TokenizerKind::O200kBase, verify: VerifyLevel::AstEquiv }
    }
}

} // verus!
