//! The pipeline every tree-sitter backend runs: parse and check the source,
//! rewrite it under the language's comment policy, and verify the candidate
//! at the requested level before anything is handed back.
use vstd::prelude::*;
use vstd::utf8::{encode_utf8, valid_utf8};
use crate::error::Error;
use crate::options::VerifyLevel;
use crate::engine::emit::emitted;
use crate::engine::parser::{Grammar, parse_source, parse_unchecked, parsed, read_as, readable, tree_of};
use crate::engine::plan::{
    CommentPolicy,
    LanguageKinds,
    covered,
    format_tree,
    kept_comment,
    law_kept_comment_survives,
    listed,
    tree_layout,
};
use crate::engine::tree::{SyntaxNode, SyntaxTree, well_formed};
use crate::engine::verify::{
    check_equivalent,
    check_reparse,
    equivalence,
    syntax_verdict,
    reparse_verdict,
};

verus! {

/// `String::from_utf8`: the bytes as a string when they are valid UTF-8,
/// and an error otherwise; the string holds exactly those bytes.
#[verifier::external_body]
fn string_from_utf8(bytes: Vec<u8>) -> (r: Option<String>)
    ensures
        r is Some <==> valid_utf8(bytes@),
        r matches Some(s) ==> encode_utf8(s@) == bytes@,
{
    String::from_utf8(bytes).ok()
}

/// The names of a list of kinds.
pub open spec fn kind_names(kinds: Seq<&'static str>) -> Seq<Seq<char>> {
    kinds.map_values(|k: &'static str| k@)
}

/// Whether `kinds` configures exactly these comment kinds, protected kinds
/// and newline setting.
pub open spec fn kinds_are(
    kinds: LanguageKinds,
    comments: Seq<Seq<char>>,
    protected: Seq<Seq<char>>,
    newline_sensitive: bool,
) -> bool {
    kind_names(kinds.comment_kinds@) == comments && kind_names(kinds.protected_kinds@) == protected
        && kinds.newline_sensitive == newline_sensitive
}

/// `code` is what the pipeline makes of `source` given the input parse `t`:
/// `t` passed the parse check, and the code's bytes are the rewrite of the
/// source under the grammar and the policy.
pub open spec fn rewritten<P: CommentPolicy>(
    t: Seq<SyntaxNode>,
    source: Seq<u8>,
    kinds: LanguageKinds,
    policy: P,
    code: Seq<char>,
) -> bool {
    &&& well_formed(t, source.len())
    &&& syntax_verdict(t) is Ok
    &&& encode_utf8(code) == emitted(tree_layout(t, source, kinds, policy))
}

/// The output parse `t2` satisfies the built-in check of `level`: it
/// re-parses cleanly, and from the equivalence level up it has the input
/// parse's comparable artifact.
pub open spec fn verified(
    level: VerifyLevel,
    t: Seq<SyntaxNode>,
    source: Seq<u8>,
    t2: Seq<SyntaxNode>,
    code: Seq<u8>,
    kinds: LanguageKinds,
) -> bool {
    &&& well_formed(t2, code.len())
    &&& match level {
        VerifyLevel::Reparse => reparse_verdict(t2) is Ok,
        _ => equivalence(t, source, t2, code, kinds) is Ok,
    }
}

/// `code` is what the pipeline produced from `source` with `grammar`, for
/// comment kinds, protected kinds and newline setting as given, under
/// `policy`, at `level`: the grammar's parse of the source, read as a tree,
/// passed the check and rewrites to `code`, and the grammar's parse of
/// `code`, read as a tree, passed the level's built-in check.
pub open spec fn produced<P: CommentPolicy>(
    grammar: Grammar,
    level: VerifyLevel,
    source: Seq<u8>,
    comments: Seq<Seq<char>>,
    protected: Seq<Seq<char>>,
    newline_sensitive: bool,
    policy: P,
    code: Seq<char>,
) -> bool {
    exists|k: LanguageKinds, t: Seq<SyntaxNode>, t2: Seq<SyntaxNode>|
        #![trigger kinds_are(k, comments, protected, newline_sensitive), rewritten(t, source, k, policy, code), verified(level, t, source, t2, encode_utf8(code), k)]
        kinds_are(k, comments, protected, newline_sensitive) && rewritten(t, source, k, policy, code)
            && verified(level, t, source, t2, encode_utf8(code), k) && tree_of(
            t,
            parsed(grammar, source),
            source.len(),
        ) && tree_of(t2, parsed(grammar, encode_utf8(code)), encode_utf8(code).len())
}

/// What a backend with these comment kinds, protected kinds and newline
/// setting owes on `source`: what the pipeline owes under any kinds so
/// configured.
pub open spec fn owed_by<P: CommentPolicy>(
    grammar: Grammar,
    level: VerifyLevel,
    source: Seq<u8>,
    comments: Seq<Seq<char>>,
    protected: Seq<Seq<char>>,
    newline_sensitive: bool,
    policy: P,
) -> bool {
    forall|k: LanguageKinds|
        #[trigger] kinds_are(k, comments, protected, newline_sensitive) ==> owed(
            grammar,
            level,
            source,
            k,
            policy,
        )
}

/// What a failed parse of the output reports.
pub open spec fn parse_detail(e: Error) -> Seq<char> {
    match e {
        Error::Parse(s) => s@,
        _ => Seq::empty(),
    }
}

/// The level's built-in verdict on a candidate parse `t2` of `code`.
pub open spec fn level_verdict(
    level: VerifyLevel,
    t: Seq<SyntaxNode>,
    source: Seq<u8>,
    t2: Seq<SyntaxNode>,
    code: Seq<u8>,
    kinds: LanguageKinds,
) -> Result<(), Seq<char>> {
    match level {
        VerifyLevel::Reparse => reparse_verdict(t2),
        _ => equivalence(t, source, t2, code, kinds),
    }
}

/// The verdict on a candidate `code` of `source`, given the input parse
/// `tree` and what parsing `code` gave: an output that does not parse is a
/// verification failure quoting the parser; otherwise the built-in check of
/// `level` decides, and its message is the failure's.
pub fn candidate_verdict(
    level: VerifyLevel,
    tree: &SyntaxTree,
    source: &[u8],
    code: &[u8],
    reparsed: Result<SyntaxTree, Error>,
    kinds: &LanguageKinds,
) -> (r: Result<(), Error>)
    requires
        well_formed(tree.nodes@, source@.len()),
        reparsed matches Ok(t2) ==> well_formed(t2.nodes@, code@.len()),
    ensures
        match reparsed {
            Err(e) => r matches Err(Error::Verification(m)) && m@ == "output failed to re-parse: "@
                + parse_detail(e),
            Ok(t2) => match level_verdict(level, tree.nodes@, source@, t2.nodes@, code@, *kinds) {
                Ok(()) => r is Ok,
                Err(m) => r matches Err(Error::Verification(s)) && s@ == m,
            },
        },
{
    let output = match reparsed {
        Ok(t) => t,
        Err(e) => {
            let message = match e {
                Error::Parse(s) => s,
                _ => String::new(),
            };
            return Err(
                Error::Verification(
                    String::from_str("output failed to re-parse: ").concat(message.as_str()),
                ),
            );
        },
    };
    match level {
        VerifyLevel::Reparse => check_reparse(&output),
        _ => check_equivalent(tree, source, &output, code, kinds),
    }
}

/// What the pipeline owes on `source`: the grammar's parse of the source
/// holds a tree, and any reading of it passes the parse check, rewrites to
/// valid UTF-8 whose own parse holds a tree, and every reading of that
/// passes the built-in check of `level` against it.
pub open spec fn owed<P: CommentPolicy>(
    grammar: Grammar,
    level: VerifyLevel,
    source: Seq<u8>,
    kinds: LanguageKinds,
    policy: P,
) -> bool {
    &&& readable(parsed(grammar, source), source.len())
    &&& forall|t: Seq<SyntaxNode>|
        #[trigger] tree_of(t, parsed(grammar, source), source.len()) ==> {
            let out = emitted(tree_layout(t, source, kinds, policy));
            &&& syntax_verdict(t) is Ok
            &&& valid_utf8(out)
            &&& readable(parsed(grammar, out), out.len())
            &&& forall|t2: Seq<SyntaxNode>|
                #[trigger] tree_of(t2, parsed(grammar, out), out.len()) ==> level_verdict(
                    level,
                    t,
                    source,
                    t2,
                    out,
                    kinds,
                ) is Ok
        }
}

/// Parses `source`, rewrites it under `kinds` and `policy`, and applies the
/// built-in check of `level` to the candidate; a candidate that fails is
/// never returned. The external toolchain, where a level asks for one, is
/// the caller's.
pub fn minimize_and_verify<P: CommentPolicy>(
    grammar: Grammar,
    kinds: &LanguageKinds,
    policy: &P,
    source: &str,
    level: VerifyLevel,
) -> (r: Result<String, Error>)
    ensures
        owed(grammar, level, encode_utf8(source@), *kinds, *policy) ==> r is Ok,
        r matches Ok(code) ==> exists|t: Seq<SyntaxNode>, t2: Seq<SyntaxNode>|
            #[trigger] rewritten(t, encode_utf8(source@), *kinds, *policy, code@) && #[trigger] verified(
                level,
                t,
                encode_utf8(source@),
                t2,
                encode_utf8(code@),
                *kinds,
            ) && tree_of(t, parsed(grammar, encode_utf8(source@)), encode_utf8(source@).len())
                && tree_of(t2, parsed(grammar, encode_utf8(code@)), encode_utf8(code@).len()),
        r matches Err(e) ==> e is Parse || e is Verification,
{
    let bytes = source.as_bytes();
    proof {
        if owed(grammar, level, bytes@, *kinds, *policy) {
            assert forall|t: Seq<SyntaxNode>| #[trigger]
                tree_of(t, parsed(grammar, bytes@), bytes@.len()) implies syntax_verdict(t) is Ok by {}
        }
    }
    let tree = match parse_source(grammar, bytes) {
        Ok(t) => t,
        Err(e) => return Err(e),
    };
    let out = format_tree(&tree, bytes, kinds, policy);
    let ghost emitted_bytes = out@;
    let code = match string_from_utf8(out) {
        Some(s) => s,
        None => {
            return Err(Error::Verification(String::from_str("output is not valid UTF-8")));
        },
    };
    let code_bytes = code.as_str().as_bytes();
    let reparsed = parse_unchecked(grammar, code_bytes);
    let ghost output_parse = reparsed;
    let verdict = candidate_verdict(level, &tree, bytes, code_bytes, reparsed, kinds);
    match verdict {
        Err(e) => Err(e),
        Ok(()) => {
            proof {
                assert(rewritten(tree.nodes@, encode_utf8(source@), *kinds, *policy, code@));
                assert(verified(
                    level,
                    tree.nodes@,
                    encode_utf8(source@),
                    output_parse->Ok_0.nodes@,
                    encode_utf8(code@),
                    *kinds,
                ));
            }
            let r: Result<String, Error> = Ok(code);
            proof {
                let c = r->Ok_0;
                assert(c@ == code@);
                assert(rewritten(tree.nodes@, encode_utf8(source@), *kinds, *policy, c@));
                assert(verified(
                    level,
                    tree.nodes@,
                    encode_utf8(source@),
                    output_parse->Ok_0.nodes@,
                    encode_utf8(c@),
                    *kinds,
                ));
            }
            r
        },
    }
}

/// Whatever the pipeline produced holds, byte for byte, every comment of the
/// grammar's parse of the source that the policy keeps.
pub proof fn law_kept_comments_reach_the_output<P: CommentPolicy>(
    grammar: Grammar,
    level: VerifyLevel,
    source: Seq<u8>,
    comments: Seq<Seq<char>>,
    protected: Seq<Seq<char>>,
    newline_sensitive: bool,
    policy: P,
    code: Seq<char>,
    i: int,
) -> (w: (Seq<u8>, Seq<u8>))
    requires
        produced(grammar, level, source, comments, protected, newline_sensitive, policy, code),
        parsed(grammar, source) matches Some(recs) && 0 <= i < recs.len() && comments.contains(
            recs[i].0,
        ) && policy.keep_spec(source.subrange(recs[i].1 as int, recs[i].2 as int)),
    ensures
        encode_utf8(code) == w.0 + source.subrange(
            parsed(grammar, source)->0[i].1 as int,
            parsed(grammar, source)->0[i].2 as int,
        ) + w.1,
{
    let recs = parsed(grammar, source)->0;
    let (k, t, t2) = choose|k: LanguageKinds, t: Seq<SyntaxNode>, t2: Seq<SyntaxNode>|
        #![trigger kinds_are(k, comments, protected, newline_sensitive), rewritten(t, source, k, policy, code), verified(level, t, source, t2, encode_utf8(code), k)]
        kinds_are(k, comments, protected, newline_sensitive) && rewritten(t, source, k, policy, code)
            && verified(level, t, source, t2, encode_utf8(code), k) && tree_of(
            t,
            parsed(grammar, source),
            source.len(),
        ) && tree_of(t2, parsed(grammar, encode_utf8(code)), encode_utf8(code).len());
    assert(read_as(t, recs));
    assert(t[i].kind@ == recs[i].0 && t[i].start == recs[i].1 && t[i].end == recs[i].2);
    let j = choose|j: int| 0 <= j < comments.len() && comments[j] == recs[i].0;
    assert(kind_names(k.comment_kinds@)[j] == comments[j]);
    assert(k.comment_kinds@[j]@ == t[i].kind@);
    assert(listed(k.comment_kinds@, t[i].kind@));
    assert(covered(t, i, source) == source.subrange(recs[i].1 as int, recs[i].2 as int));
    assert(kept_comment(t, i, source, k, policy));
    law_kept_comment_survives(t, source, k, policy, i)
}

} // verus!
