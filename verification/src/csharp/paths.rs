//! Which paths the C# backend claims.
use vstd::prelude::*;
use crate::path::extension;

verus! {

/// True when `path` names a C# source file: its extension is exactly `cs`
/// (case-sensitive).
pub fn supports_path(path: &str) -> (r: bool)
    ensures
        r == (extension(path@) == Some("cs"@)),
{
    crate::path::has_extension(path, "cs")
}

} // verus!
