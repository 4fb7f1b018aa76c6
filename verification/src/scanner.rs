//! The scanner: one left-to-right pass over the characters of a source text.
//! At the top of every step the cursor stands on an unconsumed character;
//! the step consumes everything that belongs to the token starting there and
//! leaves the cursor exactly past it. The result is proved equal to the
//! model's `spec_scan`.

use vstd::prelude::*;

use crate::error::ScanError;
use crate::keyword::Keyword;
use crate::model::{
    base_digit, base_of_letter, comment_end, cons_token, count_char, dec_end, ident_end,
    is_bracket_char, is_dec_body_char, is_dec_digit, is_escape_letter, is_ident_char,
    is_ident_start, is_op_char, lemma_line_at_bound, lemma_line_at_extend, lemma_line_at_same,
    lemma_prepend_cons, lemma_prepend_done, lemma_prepend_none, lemma_views_of_push,
    lemma_with_prefix_assoc, line_at, prepend_tokens, radix_end, scan_from, scan_result_view,
    spec_scan, string_scan, token_view, views_of, with_prefix, NumberBase, NumberFault,
    ScanConfig, StringScan,
};
use crate::text::{chars_of, push_char};
use crate::token::{Token, TokenType, TokenView};

verus! {

fn op_char(c: char) -> (b: bool)
    ensures
        b == is_op_char(c),
{
    c == '+' || c == '-' || c == '*' || c == '/' || c == '%' || c == '!' || c == '<' || c == '>'
        || c == '='
}

fn bracket_char(c: char) -> (b: bool)
    ensures
        b == is_bracket_char(c),
{
    c == '(' || c == ')' || c == '[' || c == ']' || c == '{' || c == '}'
}

fn dec_digit(c: char) -> (b: bool)
    ensures
        b == is_dec_digit(c),
{
    '0' <= c && c <= '9'
}

fn dec_body_char(c: char) -> (b: bool)
    ensures
        b == is_dec_body_char(c),
{
    ('0' <= c && c <= '9') || c == '.'
}

fn ident_start_char(c: char) -> (b: bool)
    ensures
        b == is_ident_start(c),
{
    ('a' <= c && c <= 'z') || ('A' <= c && c <= 'Z') || c == '_'
}

fn ident_char(c: char) -> (b: bool)
    ensures
        b == is_ident_char(c),
{
    ('a' <= c && c <= 'z') || ('A' <= c && c <= 'Z') || c == '_' || ('0' <= c && c <= '9')
}

fn escape_letter(c: char) -> (b: bool)
    ensures
        b == is_escape_letter(c),
{
    c == 'b' || c == 'f' || c == 'n' || c == 'r' || c == 't' || c == '0' || c == '"' || c == '\\'
}

fn letter_base(c: char) -> (r: Option<NumberBase>)
    ensures
        r == base_of_letter(c),
{
    if c == 'b' {
        Some(NumberBase::Binary)
    } else if c == 'o' {
        Some(NumberBase::Octal)
    } else if c == 'x' {
        Some(NumberBase::Hexadecimal)
    } else {
        None
    }
}

fn radix_digit(c: char, base: NumberBase) -> (b: bool)
    ensures
        b == base_digit(base)(c),
{
    match base {
        NumberBase::Binary => c == '0' || c == '1',
        NumberBase::Octal => '0' <= c && c <= '7',
        NumberBase::Hexadecimal => ('0' <= c && c <= '9') || ('a' <= c && c <= 'f') || ('A' <= c
            && c <= 'F'),
    }
}

/// Consumes an identifier or keyword: every following character that is
/// alphanumeric or an underscore.
fn scan_ident(chars: &Vec<char>, start: usize) -> (r: (usize, String))
    requires
        start < chars@.len(),
        is_ident_char(chars@[start as int]),
    ensures
        r.0 as int == ident_end(chars@, start as int),
        start < r.0 <= chars@.len(),
        r.1@ == chars@.subrange(start as int, r.0 as int),
        forall|k: int| start <= k < r.0 ==> is_ident_char(chars@[k]),
{
    let mut j: usize = start;
    let mut lit = String::new();
    while j < chars.len() && ident_char(chars[j])
        invariant
            start <= j <= chars@.len(),
            lit@ == chars@.subrange(start as int, j as int),
            ident_end(chars@, start as int) == ident_end(chars@, j as int),
            forall|k: int| start <= k < j ==> is_ident_char(chars@[k]),
        decreases chars@.len() - j,
    {
        push_char(&mut lit, chars[j]);
        j = j + 1;
        proof {
            assert(lit@ =~= chars@.subrange(start as int, j as int));
        }
    }
    proof {
        assert(ident_end(chars@, j as int) == j);
    }
    (j, lit)
}

/// Consumes a decimal literal: digits and decimal points, counting the
/// points. The literal keeps every consumed character verbatim.
fn scan_decimal(chars: &Vec<char>, start: usize) -> (r: (usize, String, usize))
    requires
        start < chars@.len(),
        is_dec_body_char(chars@[start as int]),
    ensures
        r.0 as int == dec_end(chars@, start as int),
        start < r.0 <= chars@.len(),
        r.1@ == chars@.subrange(start as int, r.0 as int),
        r.2 as int == count_char(chars@, start as int, r.0 as int, '.'),
        forall|k: int| start <= k < r.0 ==> is_dec_body_char(chars@[k]),
{
    let mut j: usize = start;
    let mut lit = String::new();
    let mut dots: usize = 0;
    while j < chars.len() && dec_body_char(chars[j])
        invariant
            start <= j <= chars@.len(),
            lit@ == chars@.subrange(start as int, j as int),
            dec_end(chars@, start as int) == dec_end(chars@, j as int),
            dots as int == count_char(chars@, start as int, j as int, '.'),
            dots <= j - start,
            forall|k: int| start <= k < j ==> is_dec_body_char(chars@[k]),
        decreases chars@.len() - j,
    {
        if chars[j] == '.' {
            dots = dots + 1;
        }
        push_char(&mut lit, chars[j]);
        j = j + 1;
        proof {
            assert(lit@ =~= chars@.subrange(start as int, j as int));
        }
    }
    proof {
        assert(dec_end(chars@, j as int) == j);
    }
    (j, lit, dots)
}

/// Consumes the digit run of a base-prefixed literal; the two prefix
/// characters stand at `start` and are part of the returned literal.
fn scan_radix(chars: &Vec<char>, start: usize, base: NumberBase) -> (r: (usize, String))
    requires
        start + 2 <= chars@.len(),
    ensures
        r.0 as int == radix_end(chars@, start as int + 2, base),
        start + 2 <= r.0 <= chars@.len(),
        r.1@ == chars@.subrange(start as int, r.0 as int),
        forall|k: int| start + 2 <= k < r.0 ==> base_digit(base)(chars@[k]),
{
    let n = chars.len();
    let mut lit = String::new();
    push_char(&mut lit, chars[start]);
    push_char(&mut lit, chars[start + 1]);
    let mut j: usize = start + 2;
    proof {
        assert(j <= n);
    }
    proof {
        assert(lit@ =~= chars@.subrange(start as int, j as int));
    }
    while j < chars.len() && radix_digit(chars[j], base)
        invariant
            start + 2 <= j <= chars@.len(),
            lit@ == chars@.subrange(start as int, j as int),
            radix_end(chars@, start as int + 2, base) == radix_end(chars@, j as int, base),
            forall|k: int| start + 2 <= k < j ==> base_digit(base)(chars@[k]),
        decreases chars@.len() - j,
    {
        push_char(&mut lit, chars[j]);
        j = j + 1;
        proof {
            assert(lit@ =~= chars@.subrange(start as int, j as int));
        }
    }
    proof {
        assert(radix_end(chars@, j as int, base) == j);
    }
    (j, lit)
}

/// Consumes the body of a line comment: everything up to, and excluding, the
/// next newline or the end of input.
fn scan_comment(chars: &Vec<char>, start: usize) -> (r: (usize, String))
    requires
        start <= chars@.len(),
    ensures
        r.0 as int == comment_end(chars@, start as int),
        start <= r.0 <= chars@.len(),
        r.1@ == chars@.subrange(start as int, r.0 as int),
        forall|k: int| start <= k < r.0 ==> chars@[k] != '\n',
        r.0 < chars@.len() ==> chars@[r.0 as int] == '\n',
{
    let mut j: usize = start;
    let mut lit = String::new();
    while j < chars.len() && chars[j] != '\n'
        invariant
            start <= j <= chars@.len(),
            lit@ == chars@.subrange(start as int, j as int),
            comment_end(chars@, start as int) == comment_end(chars@, j as int),
            forall|k: int| start <= k < j ==> chars@[k] != '\n',
        decreases chars@.len() - j,
    {
        push_char(&mut lit, chars[j]);
        j = j + 1;
        proof {
            assert(lit@ =~= chars@.subrange(start as int, j as int));
        }
    }
    proof {
        assert(comment_end(chars@, j as int) == j);
    }
    (j, lit)
}

/// Consumes a string-literal body from just after the opening quote. On
/// success returns the position past the closing quote, the literal with
/// every escape sequence kept as written, and the line reached; when input
/// ends first, returns the line input ran out on.
fn scan_string(chars: &Vec<char>, start: usize, start_line: usize) -> (r: Result<
    (usize, String, usize),
    usize,
>)
    requires
        start <= chars@.len(),
        chars@.len() < usize::MAX,
        start_line as int == line_at(chars@, start as int),
    ensures
        match r {
            Ok((next, lit, line)) => {
                &&& string_scan(chars@, start as int) == StringScan::Closed {
                    next: next as int,
                    literal: lit@,
                }
                &&& start < next <= chars@.len()
                &&& line as int == line_at(chars@, next as int)
            },
            Err(end_line) => {
                &&& string_scan(chars@, start as int) is Unterminated
                &&& end_line as int == line_at(chars@, chars@.len() as int)
            },
        },
{
    let ghost s = chars@;
    let mut j: usize = start;
    let mut lit = String::new();
    let mut line: usize = start_line;
    loop
        invariant
            start <= j <= s.len(),
            s == chars@,
            s.len() < usize::MAX,
            line as int == line_at(s, j as int),
            string_scan(s, start as int) == with_prefix(lit@, string_scan(s, j as int)),
        decreases s.len() - j,
    {
        if j >= chars.len() {
            return Err(line);
        }
        let c = chars[j];
        if c == '"' {
            proof {
                assert(string_scan(s, j as int) == StringScan::Closed {
                    next: j + 1int,
                    literal: seq![],
                });
                assert(lit@ + Seq::<char>::empty() =~= lit@);
                lemma_line_at_same(s, j as int, j + 1);
            }
            return Ok((j + 1, lit, line));
        }
        if c == '\\' && j + 1 < chars.len() && escape_letter(chars[j + 1]) {
            let d = chars[j + 1];
            proof {
                assert(string_scan(s, j as int) == with_prefix(
                    seq![c, d],
                    string_scan(s, j + 2),
                ));
                lemma_with_prefix_assoc(lit@, seq![c, d], string_scan(s, j + 2));
                assert(lit@.push(c).push(d) =~= lit@ + seq![c, d]);
                lemma_line_at_same(s, j as int, j + 2);
            }
            push_char(&mut lit, c);
            push_char(&mut lit, d);
            j = j + 2;
        } else {
            proof {
                assert(string_scan(s, j as int) == with_prefix(
                    seq![c],
                    string_scan(s, j + 1),
                ));
                lemma_with_prefix_assoc(lit@, seq![c], string_scan(s, j + 1));
                assert(lit@.push(c) =~= lit@ + seq![c]);
                lemma_line_at_bound(s, j as int);
                if c != '\n' {
                    lemma_line_at_same(s, j as int, j + 1);
                } else {
                    crate::model::lemma_line_at_extend(s, j as int, j + 1);
                }
            }
            push_char(&mut lit, c);
            if c == '\n' {
                line = line + 1;
            }
            j = j + 1;
        }
    }
}

/// One whole scan over the characters of a source text: the token stream it
/// produces, or the first error met.
#[verifier::rlimit(100)]
fn run_scan(cfg: ScanConfig, chars: &Vec<char>) -> (r: Result<Vec<Token>, ScanError>)
    requires
        cfg.wf(),
        chars@.len() < usize::MAX,
    ensures
        scan_result_view(r) == spec_scan(cfg, chars@),
{
    let ghost s = chars@;
    let n = chars.len();
    let mut i: usize = 0;
    let mut line: usize = 1;
    let mut tokens: Vec<Token> = Vec::new();
    proof {
        assert(views_of(tokens@) =~= Seq::<TokenView>::empty());
        lemma_prepend_none(scan_from(cfg, s, 0));
    }
    while i < n
        invariant
            n == s.len(),
            s == chars@,
            s.len() < usize::MAX,
            cfg.wf(),
            i <= n,
            line as int == line_at(s, i as int),
            prepend_tokens(views_of(tokens@), scan_from(cfg, s, i as int)) == spec_scan(cfg, s),
        decreases n - i,
    {
        let ghost i0 = i as int;
        let c = chars[i];
        if op_char(c) {
            if i + 1 < n && chars[i + 1] == '=' {
                let mut lit = String::new();
                push_char(&mut lit, c);
                push_char(&mut lit, '=');
                let tok = Token { literal: lit, kind: TokenType::Operator };
                proof {
                    assert(tok@.literal =~= seq![c, '=']);
                    assert(scan_from(cfg, s, i0) == cons_token(
                        token_view(seq![c, '='], TokenType::Operator),
                        scan_from(cfg, s, i0 + 2),
                    ));
                    lemma_prepend_cons(views_of(tokens@), tok@, scan_from(cfg, s, i0 + 2));
                    lemma_views_of_push(tokens@, tok);
                    lemma_line_at_same(s, i0, i0 + 2);
                }
                tokens.push(tok);
                i = i + 2;
            } else {
                let mut lit = String::new();
                push_char(&mut lit, c);
                let tok = Token { literal: lit, kind: TokenType::Operator };
                proof {
                    assert(tok@.literal =~= seq![c]);
                    assert(scan_from(cfg, s, i0) == cons_token(
                        token_view(seq![c], TokenType::Operator),
                        scan_from(cfg, s, i0 + 1),
                    ));
                    lemma_prepend_cons(views_of(tokens@), tok@, scan_from(cfg, s, i0 + 1));
                    lemma_views_of_push(tokens@, tok);
                    lemma_line_at_same(s, i0, i0 + 1);
                }
                tokens.push(tok);
                i = i + 1;
            }
        } else if bracket_char(c) {
            let mut lit = String::new();
            push_char(&mut lit, c);
            let tok = Token { literal: lit, kind: TokenType::Bracket };
            proof {
                assert(tok@.literal =~= seq![c]);
                assert(scan_from(cfg, s, i0) == cons_token(
                    token_view(seq![c], TokenType::Bracket),
                    scan_from(cfg, s, i0 + 1),
                ));
                lemma_prepend_cons(views_of(tokens@), tok@, scan_from(cfg, s, i0 + 1));
                lemma_views_of_push(tokens@, tok);
                lemma_line_at_same(s, i0, i0 + 1);
            }
            tokens.push(tok);
            i = i + 1;
        } else if c == cfg.comment_marker {
            let (e, lit) = scan_comment(chars, i + 1);
            let tok = Token { literal: lit, kind: TokenType::Comment };
            if e < n {
                // The terminating newline is consumed; it advances the line
                // counter and is not part of the literal.
                proof {
                    assert(scan_from(cfg, s, i0) == cons_token(
                        token_view(s.subrange(i0 + 1, e as int), TokenType::Comment),
                        scan_from(cfg, s, e + 1),
                    ));
                    lemma_prepend_cons(views_of(tokens@), tok@, scan_from(cfg, s, e + 1));
                    lemma_views_of_push(tokens@, tok);
                    lemma_line_at_extend(s, i0, e + 1);
                    crate::model::lemma_count_char_absent(s, i0, e as int, '\n');
                    lemma_line_at_bound(s, i0);
                }
                tokens.push(tok);
                line = line + 1;
                i = e + 1;
            } else {
                proof {
                    assert(scan_from(cfg, s, i0) == cons_token(
                        token_view(s.subrange(i0 + 1, e as int), TokenType::Comment),
                        scan_from(cfg, s, e as int),
                    ));
                    lemma_prepend_cons(views_of(tokens@), tok@, scan_from(cfg, s, e as int));
                    lemma_views_of_push(tokens@, tok);
                    lemma_line_at_same(s, i0, e as int);
                }
                tokens.push(tok);
                i = e;
            }
        } else if c == '"' {
            proof {
                lemma_line_at_same(s, i0, i0 + 1);
            }
            match scan_string(chars, i + 1, line) {
                Ok((next, lit, new_line)) => {
                    let tok = Token { literal: lit, kind: TokenType::String };
                    proof {
                        assert(scan_from(cfg, s, i0) == cons_token(
                            token_view(lit@, TokenType::String),
                            scan_from(cfg, s, next as int),
                        ));
                        lemma_prepend_cons(views_of(tokens@), tok@, scan_from(cfg, s, next as int));
                        lemma_views_of_push(tokens@, tok);
                    }
                    tokens.push(tok);
                    line = new_line;
                    i = next;
                },
                Err(end_line) => {
                    return Err(ScanError::UnterminatedString { start_line: line, end_line });
                },
            }
        } else if dec_digit(c) {
            let mut base_found: Option<NumberBase> = None;
            if c == '0' && i + 1 < n {
                if cfg.prefixed_bases {
                    base_found = letter_base(chars[i + 1]);
                }
            }
            match base_found {
                Some(base) => {
                    let (e, lit) = scan_radix(chars, i, base);
                    if e == i + 2 {
                        return Err(
                            ScanError::MalformedNumber {
                                line,
                                literal: lit,
                                fault: NumberFault::MissingDigits { base },
                            },
                        );
                    }
                    let tok = Token { literal: lit, kind: TokenType::Number };
                    proof {
                        assert(scan_from(cfg, s, i0) == cons_token(
                            token_view(s.subrange(i0, e as int), TokenType::Number),
                            scan_from(cfg, s, e as int),
                        ));
                        lemma_prepend_cons(views_of(tokens@), tok@, scan_from(cfg, s, e as int));
                        lemma_views_of_push(tokens@, tok);
                        assert(forall|k: int| i0 <= k < e ==> s[k] != '\n');
                        lemma_line_at_same(s, i0, e as int);
                    }
                    tokens.push(tok);
                    i = e;
                },
                None => {
                    let (e, lit, dots) = scan_decimal(chars, i);
                    if dots >= 2 {
                        return Err(
                            ScanError::MalformedNumber {
                                line,
                                literal: lit,
                                fault: NumberFault::MultipleDots,
                            },
                        );
                    }
                    let tok = Token { literal: lit, kind: TokenType::Number };
                    proof {
                        assert(scan_from(cfg, s, i0) == cons_token(
                            token_view(s.subrange(i0, e as int), TokenType::Number),
                            scan_from(cfg, s, e as int),
                        ));
                        lemma_prepend_cons(views_of(tokens@), tok@, scan_from(cfg, s, e as int));
                        lemma_views_of_push(tokens@, tok);
                        assert(forall|k: int| i0 <= k < e ==> s[k] != '\n');
                        lemma_line_at_same(s, i0, e as int);
                    }
                    tokens.push(tok);
                    i = e;
                },
            }
        } else if ident_start_char(c) {
            let (e, lit) = scan_ident(chars, i);
            let kind = if Keyword::contains(lit.as_str()) {
                TokenType::Keyword
            } else {
                TokenType::Identifier
            };
            let tok = Token { literal: lit, kind };
            proof {
                assert(scan_from(cfg, s, i0) == cons_token(
                    token_view(s.subrange(i0, e as int), kind),
                    scan_from(cfg, s, e as int),
                ));
                lemma_prepend_cons(views_of(tokens@), tok@, scan_from(cfg, s, e as int));
                lemma_views_of_push(tokens@, tok);
                assert(forall|k: int| i0 <= k < e ==> s[k] != '\n');
                lemma_line_at_same(s, i0, e as int);
            }
            tokens.push(tok);
            i = e;
        } else {
            proof {
                assert(scan_from(cfg, s, i0) == scan_from(cfg, s, i0 + 1));
                lemma_line_at_bound(s, i0);
                lemma_line_at_extend(s, i0, i0 + 1);
            }
            if c == '\n' {
                line = line + 1;
            }
            i = i + 1;
        }
    }
    proof {
        lemma_prepend_done(views_of(tokens@));
    }
    Ok(tokens)
}

/// The scanner: constructed once for a dialect, then invoked per source
/// text. It keeps no state between invocations, so every scan of the same
/// text returns the same result.
pub struct Scanner {
    /// The dialect this scanner was constructed with.
    pub config: ScanConfig,
}

impl Scanner {
    /// A scanner for the given dialect.
    pub fn new(config: ScanConfig) -> (r: Scanner)
        requires
            config.wf(),
        ensures
            r.config == config,
    {
        Scanner { config }
    }

    /// Scans a whole source text into its token stream, or the first error.
    /// The result is exactly the model's `spec_scan` of the text's
    /// characters, a function of the input alone.
    pub fn scan(&self, code: &str) -> (r: Result<Vec<Token>, ScanError>)
        requires
            self.config.wf(),
            code@.len() < usize::MAX,
        ensures
            scan_result_view(r) == spec_scan(self.config, code@),
    {
        let chars = chars_of(code);
        run_scan(self.config, &chars)
    }
}

} // verus!
