//! Re-emitting a parsed program with oxc's code generator, minified: with
//! the comments oxc keeps, without any, or in the comment-free canonical form
//! the equivalence check compares.
use vstd::prelude::*;
use crate::js::parser::Parsed;

verus! {

/// The program minified; its comments stripped when asked, otherwise kept
/// as far as the generator keeps them. Stripped, it is the canonical form.
pub fn emit(program: &Parsed, strip_comments: bool) -> (r: String)
    ensures
        r@ == if strip_comments {
            program.canonical@
        } else {
            program.kept@
        },
{
    if strip_comments {
        program.canonical.clone()
    } else {
        program.kept.clone()
    }
}

/// The program's canonical form: minified, with no comment at all.
pub fn canonical(program: &Parsed) -> (r: String)
    ensures
        r@ == program.canonical@,
{
    program.canonical.clone()
}

} // verus!
