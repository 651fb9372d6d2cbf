//! Which paths the Go backend claims.
use vstd::prelude::*;
use crate::path::extension;

verus! {

/// True when `path` names a Go source file: its extension is exactly `go`
/// (case-sensitive; `go.mod` and extensionless names are not Go source).
pub fn supports_path(path: &str) -> (r: bool)
    ensures
        r == (extension(path@) == Some("go"@)),
{
    crate::path::has_extension(path, "go")
}

} // verus!
