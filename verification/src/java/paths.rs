//! Which paths the Java backend claims.
use vstd::prelude::*;
use crate::path::extension;

verus! {

/// True when `path` names a Java source file: its extension is exactly `java`
/// (case-sensitive).
pub fn supports_path(path: &str) -> (r: bool)
    ensures
        r == (extension(path@) == Some("java"@)),
{
    crate::path::has_extension(path, "java")
}

} // verus!
