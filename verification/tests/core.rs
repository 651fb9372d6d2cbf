use tokenpress::error::Error;
use tokenpress::formatter::{FormatResult, Formatter};
use tokenpress::options::{FormatOptions, VerifyLevel};
use tokenpress::path::has_extension;
use tokenpress::tokenizer::{Tokenizer, TokenizerKind};

#[test]
fn display_messages() {
    assert_eq!(
        Error::Parse("bad token".into()).to_string(),
        "parse error: bad token"
    );
    assert_eq!(
        Error::Verification("ast mismatch".into()).to_string(),
        "verification failed: ast mismatch"
    );
    assert_eq!(
        Error::UnsupportedLanguage("a.txt".into()).to_string(),
        "unsupported language for path: a.txt"
    );
    assert_eq!(
        Error::UnknownTokenizer("nope".into()).to_string(),
        "unknown tokenizer: nope"
    );
}

#[test]
fn io_error_converts_and_displays_transparently() {
    let io = std::io::Error::new(std::io::ErrorKind::NotFound, "missing.py");
    let err: Error = io.into();
    assert_eq!(err.to_string(), "missing.py");
    assert!(matches!(err, Error::Io(_)));
}

#[test]
fn debug_is_derived() {
    let err = Error::Parse("x".into());
    assert!(format!("{err:?}").contains("Parse"));
}

fn result(original: usize, formatted: usize) -> FormatResult {
    FormatResult {
        code: String::new(),
        original_tokens: original,
        formatted_tokens: formatted,
    }
}

#[test]
fn tokens_saved_is_the_difference() {
    assert_eq!(result(100, 73).tokens_saved(), 27);
}

#[test]
fn tokens_saved_saturates_when_output_grew() {
    assert_eq!(result(10, 12).tokens_saved(), 0);
}

#[test]
fn formatter_trait_is_object_safe() {
    struct Fixed;
    impl Formatter for Fixed {
        fn language(&self) -> &'static str {
            "fixed"
        }
        fn supports(&self, path: &str) -> bool {
            has_extension(path, "fx")
        }
        fn format(
            &self,
            _path: &str,
            source: &str,
            _: &FormatOptions,
        ) -> Result<FormatResult, Error> {
            Ok(FormatResult {
                code: source.to_string(),
                original_tokens: 1,
                formatted_tokens: 1,
            })
        }
    }
    let f: Box<dyn Formatter> = Box::new(Fixed);
    assert_eq!(f.language(), "fixed");
    assert!(f.supports("a.fx"));
    assert!(!f.supports("a.py"));
    let r = f.format("a.fx", "src", &FormatOptions::default()).unwrap();
    assert_eq!(r.code, "src");
    assert_eq!(r, r.clone());
}

#[test]
fn defaults_are_o200k_and_ast_equivalence() {
    let opts = FormatOptions::default();
    assert_eq!(opts.tokenizer, TokenizerKind::O200kBase);
    assert_eq!(opts.verify, VerifyLevel::AstEquiv);
}

#[test]
fn options_are_cloneable_and_debuggable() {
    let opts = FormatOptions {
        tokenizer: TokenizerKind::Cl100kBase,
        verify: VerifyLevel::External,
    };
    let copy = opts.clone();
    assert_eq!(copy.tokenizer, TokenizerKind::Cl100kBase);
    assert_eq!(copy.verify, VerifyLevel::External);
    assert!(format!("{opts:?}").contains("Cl100kBase"));
}

#[test]
fn verify_levels_are_distinct() {
    assert_ne!(VerifyLevel::Reparse, VerifyLevel::AstEquiv);
    assert_ne!(VerifyLevel::AstEquiv, VerifyLevel::External);
}

#[test]
fn from_name_resolves_known_tokenizers() {
    assert_eq!(
        TokenizerKind::from_name("o200k_base").unwrap(),
        TokenizerKind::O200kBase
    );
    assert_eq!(
        TokenizerKind::from_name("cl100k_base").unwrap(),
        TokenizerKind::Cl100kBase
    );
}

#[test]
fn from_name_rejects_unknown_tokenizers() {
    let err = TokenizerKind::from_name("gpt9_base").unwrap_err();
    assert_eq!(err.to_string(), "unknown tokenizer: gpt9_base");
}

#[test]
fn default_is_o200k() {
    assert_eq!(TokenizerKind::default(), TokenizerKind::O200kBase);
}

#[test]
fn kind_and_loaded_tokenizer_agree_on_name() {
    for kind in [TokenizerKind::O200kBase, TokenizerKind::Cl100kBase] {
        assert_eq!(kind.load().name(), kind.name());
    }
}

#[test]
fn counts_empty_as_zero_and_code_as_nonzero() {
    let tok = TokenizerKind::O200kBase.load();
    assert_eq!(tok.count(""), 0);
    assert!(tok.count("def add(a, b):\n    return a + b\n") > 0);
    let tok = TokenizerKind::Cl100kBase.load();
    assert_eq!(tok.count(""), 0);
    assert!(tok.count("fn main() {}\n") > 0);
}

#[test]
fn whitespace_removal_reduces_token_count() {
    let tok = TokenizerKind::O200kBase.load();
    assert!(tok.count("x=f(a,b)") <= tok.count("x  =  f( a , b )"));
}

#[test]
fn is_verification_tells_the_variants_apart() {
    assert!(Error::Verification("x".into()).is_verification());
    assert!(!Error::Parse("x".into()).is_verification());
}
