use lexscan::error::ScanError;
use lexscan::lexer::Lexer;
use lexscan::model::{NumberBase, NumberFault, ScanConfig};
use lexscan::scanner::Scanner;
use lexscan::token::{Token, TokenType};
use lexscan::tokenizer::Tokenizer;

fn tok(literal: &str, kind: TokenType) -> Token {
    Token { literal: literal.to_string(), kind }
}

fn tokenize(code: &str) -> Result<Vec<Token>, ScanError> {
    Tokenizer::new().tokenize(code.to_string())
}

fn lex(code: &str) -> Result<Vec<Token>, ScanError> {
    Lexer::new().lex(code.to_string())
}

#[test]
fn empty_input_scans_to_nothing() {
    assert_eq!(tokenize(""), Ok(vec![]));
    assert_eq!(lex(""), Ok(vec![]));
}

#[test]
fn whitespace_only_input_scans_to_nothing() {
    assert_eq!(tokenize("   "), Ok(vec![]));
    assert_eq!(tokenize(" \n\t\r\n "), Ok(vec![]));
    assert_eq!(lex("\n\n\n"), Ok(vec![]));
}

#[test]
fn keyword_then_identifier() {
    assert_eq!(
        tokenize("if x"),
        Ok(vec![tok("if", TokenType::Keyword), tok("x", TokenType::Identifier)])
    );
}

#[test]
fn every_keyword_is_classified_as_keyword() {
    for word in ["const", "if", "else", "false", "true", "while"] {
        assert_eq!(tokenize(word), Ok(vec![tok(word, TokenType::Keyword)]));
    }
}

#[test]
fn near_keywords_are_identifiers() {
    for word in ["iff", "If", "whilee", "tru", "_if", "els"] {
        assert_eq!(tokenize(word), Ok(vec![tok(word, TokenType::Identifier)]));
    }
}

#[test]
fn identifiers_take_underscores_and_digits() {
    assert_eq!(
        tokenize("_a1 b_2"),
        Ok(vec![tok("_a1", TokenType::Identifier), tok("b_2", TokenType::Identifier)])
    );
}

#[test]
fn operator_followed_by_equals_is_greedy() {
    for c in ["+", "-", "*", "/", "%", "!", "<", ">", "="] {
        let two = format!("{}=", c);
        assert_eq!(tokenize(&two), Ok(vec![tok(&two, TokenType::Operator)]));
        assert_eq!(tokenize(c), Ok(vec![tok(c, TokenType::Operator)]));
    }
}

#[test]
fn operator_greedy_in_midstream() {
    assert_eq!(
        tokenize("a<=b"),
        Ok(vec![
            tok("a", TokenType::Identifier),
            tok("<=", TokenType::Operator),
            tok("b", TokenType::Identifier),
        ])
    );
}

#[test]
fn three_equals_scan_as_double_then_single() {
    assert_eq!(
        tokenize("==="),
        Ok(vec![tok("==", TokenType::Operator), tok("=", TokenType::Operator)])
    );
}

#[test]
fn brackets_are_single_character_tokens() {
    assert_eq!(
        tokenize("()[]{}"),
        Ok(vec![
            tok("(", TokenType::Bracket),
            tok(")", TokenType::Bracket),
            tok("[", TokenType::Bracket),
            tok("]", TokenType::Bracket),
            tok("{", TokenType::Bracket),
            tok("}", TokenType::Bracket),
        ])
    );
}

#[test]
fn base_prefixed_numbers_and_operators() {
    assert_eq!(
        tokenize("0b101 + 0o17 - 0x1F"),
        Ok(vec![
            tok("0b101", TokenType::Number),
            tok("+", TokenType::Operator),
            tok("0o17", TokenType::Number),
            tok("-", TokenType::Operator),
            tok("0x1F", TokenType::Number),
        ])
    );
}

#[test]
fn decimal_numbers_with_at_most_one_dot() {
    assert_eq!(tokenize("42"), Ok(vec![tok("42", TokenType::Number)]));
    assert_eq!(tokenize("3.14"), Ok(vec![tok("3.14", TokenType::Number)]));
    assert_eq!(tokenize("5."), Ok(vec![tok("5.", TokenType::Number)]));
}

#[test]
fn number_stops_at_first_foreign_character() {
    assert_eq!(
        tokenize("0x1G"),
        Ok(vec![tok("0x1", TokenType::Number), tok("G", TokenType::Identifier)])
    );
    assert_eq!(
        tokenize("12a"),
        Ok(vec![tok("12", TokenType::Number), tok("a", TokenType::Identifier)])
    );
}

#[test]
fn leading_dot_is_skipped_not_part_of_number() {
    assert_eq!(
        tokenize("x.5"),
        Ok(vec![tok("x", TokenType::Identifier), tok("5", TokenType::Number)])
    );
}

#[test]
fn lexer_dialect_reads_prefixes_as_decimal_then_identifier() {
    assert_eq!(
        lex("0b101"),
        Ok(vec![tok("0", TokenType::Number), tok("b101", TokenType::Identifier)])
    );
}

#[test]
fn hash_comment_runs_to_end_of_line() {
    assert_eq!(
        tokenize("# hello\nx"),
        Ok(vec![tok(" hello", TokenType::Comment), tok("x", TokenType::Identifier)])
    );
}

#[test]
fn comment_at_end_of_input_without_newline() {
    assert_eq!(tokenize("# abc"), Ok(vec![tok(" abc", TokenType::Comment)]));
}

#[test]
fn semicolon_comment_in_lexer_dialect() {
    assert_eq!(lex("; hi"), Ok(vec![tok(" hi", TokenType::Comment)]));
}

#[test]
fn hash_is_skipped_in_semicolon_dialect() {
    assert_eq!(lex("# x"), Ok(vec![tok("x", TokenType::Identifier)]));
}

#[test]
fn string_literal_drops_quotes_keeps_body() {
    assert_eq!(tokenize("\"abc\""), Ok(vec![tok("abc", TokenType::String)]));
}

#[test]
fn escape_sequences_are_kept_verbatim() {
    assert_eq!(tokenize("\"a\\nb\""), Ok(vec![tok("a\\nb", TokenType::String)]));
    assert_eq!(tokenize("\"a\\\"b\""), Ok(vec![tok("a\\\"b", TokenType::String)]));
    assert_eq!(tokenize("\"a\\\\b\""), Ok(vec![tok("a\\\\b", TokenType::String)]));
}

#[test]
fn unrecognised_escape_is_a_plain_backslash() {
    assert_eq!(tokenize("\"a\\qb\""), Ok(vec![tok("a\\qb", TokenType::String)]));
}

#[test]
fn newline_inside_string_stays_in_literal() {
    assert_eq!(tokenize("\"a\nb\""), Ok(vec![tok("a\nb", TokenType::String)]));
}

#[test]
fn multiple_dots_fail_the_scan() {
    assert_eq!(
        tokenize("1.2.3"),
        Err(ScanError::MalformedNumber {
            line: 1,
            literal: "1.2.3".to_string(),
            fault: NumberFault::MultipleDots,
        })
    );
    assert_eq!(
        tokenize("1..2"),
        Err(ScanError::MalformedNumber {
            line: 1,
            literal: "1..2".to_string(),
            fault: NumberFault::MultipleDots,
        })
    );
}

#[test]
fn bare_base_prefix_fails_the_scan() {
    assert_eq!(
        tokenize("0x"),
        Err(ScanError::MalformedNumber {
            line: 1,
            literal: "0x".to_string(),
            fault: NumberFault::MissingDigits { base: NumberBase::Hexadecimal },
        })
    );
    assert_eq!(
        tokenize("0b"),
        Err(ScanError::MalformedNumber {
            line: 1,
            literal: "0b".to_string(),
            fault: NumberFault::MissingDigits { base: NumberBase::Binary },
        })
    );
    assert_eq!(
        tokenize("0o 1"),
        Err(ScanError::MalformedNumber {
            line: 1,
            literal: "0o".to_string(),
            fault: NumberFault::MissingDigits { base: NumberBase::Octal },
        })
    );
    assert_eq!(
        tokenize("0b2"),
        Err(ScanError::MalformedNumber {
            line: 1,
            literal: "0b".to_string(),
            fault: NumberFault::MissingDigits { base: NumberBase::Binary },
        })
    );
}

#[test]
fn unterminated_string_fails_the_scan() {
    assert_eq!(
        tokenize("\"abc"),
        Err(ScanError::UnterminatedString { start_line: 1, end_line: 1 })
    );
}

#[test]
fn unterminated_string_reports_both_lines() {
    assert_eq!(
        tokenize("\"a\nbc"),
        Err(ScanError::UnterminatedString { start_line: 1, end_line: 2 })
    );
}

#[test]
fn error_line_counts_newlines_before_the_literal() {
    assert_eq!(
        tokenize("x\ny\n1.2.3"),
        Err(ScanError::MalformedNumber {
            line: 3,
            literal: "1.2.3".to_string(),
            fault: NumberFault::MultipleDots,
        })
    );
}

#[test]
fn newlines_inside_strings_and_comments_advance_the_line() {
    assert_eq!(
        tokenize("\"a\nb\" # c\n0x"),
        Err(ScanError::MalformedNumber {
            line: 3,
            literal: "0x".to_string(),
            fault: NumberFault::MissingDigits { base: NumberBase::Hexadecimal },
        })
    );
}

#[test]
fn round_trip_of_kept_literals() {
    let tokens = tokenize("if (x1)>=2 # trailing").unwrap();
    let kept: String = tokens
        .iter()
        .filter(|t| t.kind != TokenType::Comment && t.kind != TokenType::String)
        .map(|t| t.literal.as_str())
        .collect();
    assert_eq!(kept, "if(x1)>=2");
}

#[test]
fn scan_is_a_function_of_the_input_alone() {
    let reused = Tokenizer::new();
    let first = reused.tokenize("a + b".to_string());
    let second = reused.tokenize("\"x".to_string());
    let fresh = Tokenizer::new();
    assert_eq!(first, Tokenizer::new().tokenize("a + b".to_string()));
    assert_eq!(second, fresh.tokenize("\"x".to_string()));
}

#[test]
fn custom_dialect_combines_marker_and_bases() {
    let scanner = Scanner::new(ScanConfig { comment_marker: ';', prefixed_bases: true });
    assert_eq!(
        scanner.scan("0b11 ; note"),
        Ok(vec![tok("0b11", TokenType::Number), tok(" note", TokenType::Comment)])
    );
}

#[test]
fn mixed_program_scans_in_order() {
    assert_eq!(
        tokenize("while i<10 { i = i+1 }"),
        Ok(vec![
            tok("while", TokenType::Keyword),
            tok("i", TokenType::Identifier),
            tok("<", TokenType::Operator),
            tok("10", TokenType::Number),
            tok("{", TokenType::Bracket),
            tok("i", TokenType::Identifier),
            tok("=", TokenType::Operator),
            tok("i", TokenType::Identifier),
            tok("+", TokenType::Operator),
            tok("1", TokenType::Number),
            tok("}", TokenType::Bracket),
        ])
    );
}
