use lexscan::error::ScanError;
use lexscan::keyword::Keyword;
use lexscan::model::{NumberBase, NumberFault};
use lexscan::parser::Parser;
use lexscan::reporter::Reporter;
use lexscan::token::{Token, TokenType};
use lexscan::tokenizer::Tokenizer;
use lexscan::transpiler::Transpiler;

#[test]
fn keyword_spellings() {
    assert_eq!(Keyword::CONST.as_str(), "const");
    assert_eq!(Keyword::IF.as_str(), "if");
    assert_eq!(Keyword::ELSE.as_str(), "else");
    assert_eq!(Keyword::VAL_FALSE.as_str(), "false");
    assert_eq!(Keyword::VAL_TRUE.as_str(), "true");
    assert_eq!(Keyword::WHILE.as_str(), "while");
}

#[test]
fn keyword_table_enumerates_each_entry_once() {
    let all = Keyword::iterator();
    assert_eq!(all.len(), 6);
    let spellings: Vec<&str> = all.iter().map(|k| k.as_str()).collect();
    assert_eq!(spellings, vec!["const", "if", "else", "false", "true", "while"]);
}

#[test]
fn keyword_membership_is_exact_and_case_sensitive() {
    for k in Keyword::iterator() {
        assert!(Keyword::contains(k.as_str()));
    }
    assert!(!Keyword::contains("iff"));
    assert!(!Keyword::contains("If"));
    assert!(!Keyword::contains("WHILE"));
    assert!(!Keyword::contains(""));
    assert!(!Keyword::contains("whil"));
}

#[test]
fn multiple_dots_message() {
    let e = Tokenizer::new().tokenize("1.2.3".to_string()).unwrap_err();
    assert_eq!(e.message(), "[line 1]: expression \"1.2.3\" has multiple dots");
}

#[test]
fn missing_digits_messages() {
    let binary = ScanError::MalformedNumber {
        line: 4,
        literal: "0b".to_string(),
        fault: NumberFault::MissingDigits { base: NumberBase::Binary },
    };
    assert_eq!(binary.message(), "[line 4]: incomplete binary expression \"0b\"");
    let octal = ScanError::MalformedNumber {
        line: 1,
        literal: "0o".to_string(),
        fault: NumberFault::MissingDigits { base: NumberBase::Octal },
    };
    assert_eq!(octal.message(), "[line 1]: incomplete octal expression \"0o\"");
    let hex = ScanError::MalformedNumber {
        line: 12,
        literal: "0x".to_string(),
        fault: NumberFault::MissingDigits { base: NumberBase::Hexadecimal },
    };
    assert_eq!(hex.message(), "[line 12]: incomplete hexadecimal expression \"0x\"");
}

#[test]
fn unterminated_string_message() {
    let e = ScanError::UnterminatedString { start_line: 3, end_line: 107 };
    assert_eq!(e.message(), "[line 107]: unterminated string starting on line 3");
}

#[test]
fn reporter_wraps_messages() {
    assert_eq!(Reporter::wrap_error("boom".to_string()), "[GT] [Error]: boom");
    assert_eq!(Reporter::wrap_warning("odd".to_string()), "[GT] [Warning]: odd");
}

#[test]
fn parser_holds_and_resets_tokens() {
    let mut parser = Parser::new();
    assert!(parser.tokens.is_empty());
    parser.load(vec![Token { literal: "x".to_string(), kind: TokenType::Identifier }]);
    assert_eq!(parser.tokens.len(), 1);
    parser.reset();
    assert!(parser.tokens.is_empty());
}

#[test]
fn transpiler_constructs() {
    let _ = Transpiler::new();
}
