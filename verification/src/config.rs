//! The `tokenpress.toml` configuration as plain values. Every key is
//! optional; a key that is absent leaves the command line's choice alone.
use vstd::prelude::*;

verus! {

/// How strictly output is checked, as the configuration file spells it.
#[derive(Clone, Copy, Debug, PartialEq, Eq, Structural)]
pub enum ConfigVerify {
    Reparse,
    Ast,
    External,
}

/// The `[python]` table.
#[derive(Clone, Copy, Debug, PartialEq, Eq, Structural)]
pub struct PythonConfig {
    pub strip_comments: Option<bool>,
    pub strip_docstrings: Option<bool>,
    pub strip_annotations: Option<bool>,
    pub merge_imports: Option<bool>,
}

/// The `[rust]` table.
#[derive(Clone, Copy, Debug, PartialEq, Eq, Structural)]
pub struct RustConfig {
    pub strip_doc_comments: Option<bool>,
}

/// The `[javascript]` table.
#[derive(Clone, Copy, Debug, PartialEq, Eq, Structural)]
pub struct JavaScriptConfig {
    pub strip_comments: Option<bool>,
}

/// The `[go]` table.
#[derive(Clone, Copy, Debug, PartialEq, Eq, Structural)]
pub struct GoConfig {
    pub strip_comments: Option<bool>,
}

/// The `[java]` table.
#[derive(Clone, Copy, Debug, PartialEq, Eq, Structural)]
pub struct JavaConfig {
    pub strip_comments: Option<bool>,
}

/// The `[csharp]` table.
#[derive(Clone, Copy, Debug, PartialEq, Eq, Structural)]
pub struct CSharpConfig {
    pub strip_comments: Option<bool>,
}

/// The `[ruby]` table of a build without a Ruby backend: it can never hold a
/// value, because reading one is refused.
#[derive(Clone, Copy, Debug, PartialEq, Eq, Structural)]
pub struct NoRubySupport;

/// A whole configuration file.
#[derive(Clone, Debug)]
pub struct FileConfig {
    pub tokenizer: Option<String>,
    pub verify: Option<ConfigVerify>,
    pub python: Option<PythonConfig>,
    pub rust: Option<RustConfig>,
    pub javascript: Option<JavaScriptConfig>,
    pub ruby: Option<NoRubySupport>,
    pub go: Option<GoConfig>,
    pub java: Option<JavaConfig>,
    pub csharp: Option<CSharpConfig>,
}

/// The message a `[ruby]` table is refused with.
pub const NO_RUBY_MESSAGE: &'static str =
    "this tokenpress was built without the `ruby` feature, so the [ruby] table has nothing to configure";

} // verus!
