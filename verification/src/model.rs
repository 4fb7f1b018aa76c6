//! The mathematical model of scanning: character classes, the cursor
//! positions where each sub-scan stops, and a recursive definition of the
//! whole token stream that a source text scans to. The executable scanner is
//! proved to return exactly this model's result.

use vstd::prelude::*;

use crate::token::{Token, TokenType, TokenView};

verus! {

/// The dialect a scanner is constructed with: which character opens a line
/// comment, and whether base-prefixed numeric literals (`0b`, `0o`, `0x`)
/// are recognised.
#[derive(Clone, Copy, Debug, PartialEq, Eq, Structural)]
pub struct ScanConfig {
    /// The character that opens a line comment.
    pub comment_marker: char,
    /// Whether `0b` / `0o` / `0x` prefixed integer literals are scanned.
    pub prefixed_bases: bool,
}

impl ScanConfig {
    /// The observed dialects use `;` or `#` as the comment marker; both stand
    /// apart from every other character class the dispatch examines.
    pub open spec fn wf(self) -> bool {
        self.comment_marker == ';' || self.comment_marker == '#'
    }
}

/// The numeric base a prefixed literal selects.
#[derive(Clone, Copy, Debug, PartialEq, Eq, Structural)]
pub enum NumberBase {
    Binary,
    Octal,
    Hexadecimal,
}

/// Why a numeric literal was rejected.
#[derive(Clone, Copy, Debug, PartialEq, Eq, Structural)]
pub enum NumberFault {
    /// A decimal literal contains two or more decimal points.
    MultipleDots,
    /// A base prefix has no digits of that base after it.
    MissingDigits { base: NumberBase },
}

/// The mathematical shape of a scan error: which literal was malformed and on
/// which line, or where an unterminated string began and where input ran out.
#[verifier::ext_equal]
pub enum ScanErrorView {
    MalformedNumber { line: int, literal: Seq<char>, fault: NumberFault },
    UnterminatedString { start_line: int, end_line: int },
}

// ---------------------------------------------------------------------------
// Character classes
// ---------------------------------------------------------------------------

/// A character that may begin an operator; each may be extended by `=`.
pub open spec fn is_op_char(c: char) -> bool {
    c == '+' || c == '-' || c == '*' || c == '/' || c == '%' || c == '!' || c == '<' || c == '>'
        || c == '='
}

/// A bracket delimiter; always a single-character token.
pub open spec fn is_bracket_char(c: char) -> bool {
    c == '(' || c == ')' || c == '[' || c == ']' || c == '{' || c == '}'
}

pub open spec fn is_dec_digit(c: char) -> bool {
    '0' <= c && c <= '9'
}

pub open spec fn is_bin_digit(c: char) -> bool {
    c == '0' || c == '1'
}

pub open spec fn is_oct_digit(c: char) -> bool {
    '0' <= c && c <= '7'
}

pub open spec fn is_hex_digit(c: char) -> bool {
    is_dec_digit(c) || ('a' <= c && c <= 'f') || ('A' <= c && c <= 'F')
}

/// A character that may begin an identifier or keyword.
pub open spec fn is_ident_start(c: char) -> bool {
    ('a' <= c && c <= 'z') || ('A' <= c && c <= 'Z') || c == '_'
}

/// A character that may continue an identifier or keyword.
pub open spec fn is_ident_char(c: char) -> bool {
    is_ident_start(c) || is_dec_digit(c)
}

/// A character a decimal literal consumes: a digit or a decimal point.
pub open spec fn is_dec_body_char(c: char) -> bool {
    is_dec_digit(c) || c == '.'
}

/// The escape letters recognised after a backslash inside a string literal.
pub open spec fn is_escape_letter(c: char) -> bool {
    c == 'b' || c == 'f' || c == 'n' || c == 'r' || c == 't' || c == '0' || c == '"' || c == '\\'
}

/// Whitespace, the characters the scanner skips without emitting a token.
pub open spec fn is_blank_char(c: char) -> bool {
    c == ' ' || c == '\t' || c == '\r' || c == '\n'
}

/// The digit alphabet each base accepts.
pub open spec fn base_digit(base: NumberBase) -> spec_fn(char) -> bool {
    match base {
        NumberBase::Binary => |c: char| is_bin_digit(c),
        NumberBase::Octal => |c: char| is_oct_digit(c),
        NumberBase::Hexadecimal => |c: char| is_hex_digit(c),
    }
}

/// The base a prefix letter selects, if any: `b`, `o` or `x` after a zero.
pub open spec fn base_of_letter(c: char) -> Option<NumberBase> {
    if c == 'b' {
        Some(NumberBase::Binary)
    } else if c == 'o' {
        Some(NumberBase::Octal)
    } else if c == 'x' {
        Some(NumberBase::Hexadecimal)
    } else {
        None
    }
}

// ---------------------------------------------------------------------------
// Where each consume-while sub-scan stops
// ---------------------------------------------------------------------------

/// The first position at or after `i` whose character fails `pred`, or the
/// end of input. Every bounded consume-while loop of the scanner stops here.
pub open spec fn scan_while(s: Seq<char>, i: int, pred: spec_fn(char) -> bool) -> int
    decreases s.len() - i,
{
    if i < s.len() && pred(s[i]) {
        scan_while(s, i + 1, pred)
    } else {
        i
    }
}

pub proof fn lemma_scan_while(s: Seq<char>, i: int, pred: spec_fn(char) -> bool)
    requires
        0 <= i <= s.len(),
    ensures
        i <= scan_while(s, i, pred) <= s.len(),
        forall|k: int| i <= k < scan_while(s, i, pred) ==> pred(s[k]),
        scan_while(s, i, pred) < s.len() ==> !pred(s[scan_while(s, i, pred)]),
        i < s.len() && pred(s[i]) ==> i < scan_while(s, i, pred),
    decreases s.len() - i,
{
    if i < s.len() && pred(s[i]) {
        lemma_scan_while(s, i + 1, pred);
    }
}

/// Where an identifier or keyword that starts at `i` stops.
pub open spec fn ident_end(s: Seq<char>, i: int) -> int {
    scan_while(s, i, |c: char| is_ident_char(c))
}

/// Where a decimal literal that starts at `i` stops: after the digits and
/// decimal points it consumes.
pub open spec fn dec_end(s: Seq<char>, i: int) -> int {
    scan_while(s, i, |c: char| is_dec_body_char(c))
}

/// Where the digit run of a base-prefixed literal stops, the run starting at
/// `i` (just after the two prefix characters).
pub open spec fn radix_end(s: Seq<char>, i: int, base: NumberBase) -> int {
    scan_while(s, i, base_digit(base))
}

/// Where the body of a line comment that starts at `i` stops: at the first
/// newline, or at the end of input.
pub open spec fn comment_end(s: Seq<char>, i: int) -> int {
    scan_while(s, i, |c: char| c != '\n')
}

// ---------------------------------------------------------------------------
// Counting characters: decimal points and line numbers
// ---------------------------------------------------------------------------

/// How many occurrences of `c` lie in `s[lo..hi)`.
pub open spec fn count_char(s: Seq<char>, lo: int, hi: int, c: char) -> int
    decreases hi - lo,
{
    if lo < hi {
        count_char(s, lo, hi - 1, c) + if s[hi - 1] == c {
            1int
        } else {
            0int
        }
    } else {
        0
    }
}

pub proof fn lemma_count_char_bounds(s: Seq<char>, lo: int, hi: int, c: char)
    requires
        lo <= hi,
    ensures
        0 <= count_char(s, lo, hi, c) <= hi - lo,
    decreases hi - lo,
{
    if lo < hi {
        lemma_count_char_bounds(s, lo, hi - 1, c);
    }
}

pub proof fn lemma_count_char_split(s: Seq<char>, lo: int, mid: int, hi: int, c: char)
    requires
        lo <= mid <= hi,
    ensures
        count_char(s, lo, hi, c) == count_char(s, lo, mid, c) + count_char(s, mid, hi, c),
    decreases hi - mid,
{
    if mid < hi {
        lemma_count_char_split(s, lo, mid, hi - 1, c);
    }
}

/// If no character of `s[lo..hi)` is `c`, the count over that range is zero.
pub proof fn lemma_count_char_absent(s: Seq<char>, lo: int, hi: int, c: char)
    requires
        lo <= hi,
        forall|k: int| lo <= k < hi ==> s[k] != c,
    ensures
        count_char(s, lo, hi, c) == 0,
    decreases hi - lo,
{
    if lo < hi {
        lemma_count_char_absent(s, lo, hi - 1, c);
    }
}

/// The line the cursor stands on at position `i`: lines are counted from 1,
/// and every newline already consumed, wherever it stood, advanced the count.
pub open spec fn line_at(s: Seq<char>, i: int) -> int {
    1 + count_char(s, 0, i, '\n')
}

// ---------------------------------------------------------------------------
// The string-literal sub-scan
// ---------------------------------------------------------------------------

/// The outcome of scanning a string literal whose body starts at some
/// position: either the position just past the closing quote together with
/// the literal's characters, or the end of input came first.
#[verifier::ext_equal]
pub enum StringScan {
    Closed { next: int, literal: Seq<char> },
    Unterminated,
}

/// Scans a string-literal body from `i`: stops at the first unescaped `"`,
/// keeps a backslash and a recognised escape letter as a two-character unit
/// written verbatim into the literal, and treats any other backslash as an
/// ordinary character. The closing quote is consumed but not kept.
pub open spec fn string_scan(s: Seq<char>, i: int) -> StringScan
    decreases s.len() - i,
{
    if i >= s.len() {
        StringScan::Unterminated
    } else if s[i] == '"' {
        StringScan::Closed { next: i + 1, literal: seq![] }
    } else if s[i] == '\\' && i + 1 < s.len() && is_escape_letter(s[i + 1]) {
        match string_scan(s, i + 2) {
            StringScan::Closed { next, literal } => StringScan::Closed {
                next,
                literal: seq![s[i], s[i + 1]] + literal,
            },
            StringScan::Unterminated => StringScan::Unterminated,
        }
    } else {
        match string_scan(s, i + 1) {
            StringScan::Closed { next, literal } => StringScan::Closed {
                next,
                literal: seq![s[i]] + literal,
            },
            StringScan::Unterminated => StringScan::Unterminated,
        }
    }
}

pub proof fn lemma_string_scan_bounds(s: Seq<char>, i: int)
    requires
        0 <= i <= s.len(),
    ensures
        string_scan(s, i) matches StringScan::Closed { next, .. } ==> i < next <= s.len(),
    decreases s.len() - i,
{
    if i >= s.len() {
    } else if s[i] == '"' {
    } else if s[i] == '\\' && i + 1 < s.len() && is_escape_letter(s[i + 1]) {
        lemma_string_scan_bounds(s, i + 2);
    } else {
        lemma_string_scan_bounds(s, i + 1);
    }
}

// ---------------------------------------------------------------------------
// The scan itself
// ---------------------------------------------------------------------------

pub open spec fn token_view(literal: Seq<char>, kind: TokenType) -> TokenView {
    TokenView { literal, kind }
}

/// Puts one more token in front of a scan result, unless the result is an
/// error, which passes through unchanged.
pub open spec fn cons_token(
    t: TokenView,
    r: Result<Seq<TokenView>, ScanErrorView>,
) -> Result<Seq<TokenView>, ScanErrorView> {
    match r {
        Ok(ts) => Ok(seq![t] + ts),
        Err(e) => Err(e),
    }
}

/// Whether a decimal literal's character sequence holds two or more decimal
/// points, which makes it malformed.
pub open spec fn has_multiple_dots(s: Seq<char>, lo: int, hi: int) -> bool {
    count_char(s, lo, hi, '.') >= 2
}

/// The tokens that scanning `s` from position `i` produces, or the first
/// error met. One unconsumed character stands at the cursor at each step;
/// the step that consumes it is chosen by dispatch priority: operator or
/// bracket first, then comment marker, then string quote, then digit, then
/// identifier start; anything else, whitespace included, is skipped without
/// a token.
pub open spec fn scan_from(cfg: ScanConfig, s: Seq<char>, i: int) -> Result<
    Seq<TokenView>,
    ScanErrorView,
>
    decreases s.len() - i,
    when 0 <= i
{
    if i >= s.len() {
        Ok(seq![])
    } else {
        let c = s[i];
        if is_op_char(c) {
            if i + 1 < s.len() && s[i + 1] == '=' {
                cons_token(
                    token_view(seq![c, '='], TokenType::Operator),
                    scan_from(cfg, s, i + 2),
                )
            } else {
                cons_token(token_view(seq![c], TokenType::Operator), scan_from(cfg, s, i + 1))
            }
        } else if is_bracket_char(c) {
            cons_token(token_view(seq![c], TokenType::Bracket), scan_from(cfg, s, i + 1))
        } else if c == cfg.comment_marker {
            let e = comment_end(s, i + 1);
            let next = if e < s.len() {
                e + 1
            } else {
                e
            };
            proof {
                lemma_scan_while(s, i + 1, |ch: char| ch != '\n');
            }
            cons_token(
                token_view(s.subrange(i + 1, e), TokenType::Comment),
                scan_from(cfg, s, next),
            )
        } else if c == '"' {
            match string_scan(s, i + 1) {
                StringScan::Closed { next, literal } => {
                    proof {
                        lemma_string_scan_bounds(s, i + 1);
                    }
                    cons_token(
                        token_view(literal, TokenType::String),
                        scan_from(cfg, s, next),
                    )
                },
                StringScan::Unterminated => Err(
                    ScanErrorView::UnterminatedString {
                        start_line: line_at(s, i),
                        end_line: line_at(s, s.len() as int),
                    },
                ),
            }
        } else if is_dec_digit(c) {
            if cfg.prefixed_bases && c == '0' && i + 1 < s.len() && base_of_letter(s[i + 1])
                is Some {
                let base = base_of_letter(s[i + 1])->Some_0;
                let e = radix_end(s, i + 2, base);
                proof {
                    lemma_scan_while(s, i + 2, base_digit(base));
                }
                if e == i + 2 {
                    Err(
                        ScanErrorView::MalformedNumber {
                            line: line_at(s, i),
                            literal: s.subrange(i, i + 2),
                            fault: NumberFault::MissingDigits { base },
                        },
                    )
                } else {
                    cons_token(
                        token_view(s.subrange(i, e), TokenType::Number),
                        scan_from(cfg, s, e),
                    )
                }
            } else {
                let e = dec_end(s, i);
                proof {
                    lemma_scan_while(s, i, |ch: char| is_dec_body_char(ch));
                }
                if has_multiple_dots(s, i, e) {
                    Err(
                        ScanErrorView::MalformedNumber {
                            line: line_at(s, i),
                            literal: s.subrange(i, e),
                            fault: NumberFault::MultipleDots,
                        },
                    )
                } else {
                    cons_token(
                        token_view(s.subrange(i, e), TokenType::Number),
                        scan_from(cfg, s, e),
                    )
                }
            }
        } else if is_ident_start(c) {
            let e = ident_end(s, i);
            let lit = s.subrange(i, e);
            proof {
                lemma_scan_while(s, i, |ch: char| is_ident_char(ch));
            }
            cons_token(
                token_view(
                    lit,
                    if crate::keyword::is_keyword_chars(lit) {
                        TokenType::Keyword
                    } else {
                        TokenType::Identifier
                    },
                ),
                scan_from(cfg, s, e),
            )
        } else {
            scan_from(cfg, s, i + 1)
        }
    }
}

/// The result of a whole scan of `s`: the token stream, or the first error.
pub open spec fn spec_scan(cfg: ScanConfig, s: Seq<char>) -> Result<
    Seq<TokenView>,
    ScanErrorView,
> {
    scan_from(cfg, s, 0)
}

// ---------------------------------------------------------------------------
// Relating executable values to the model
// ---------------------------------------------------------------------------

/// The views of a sequence of tokens, in order.
pub open spec fn views_of(ts: Seq<Token>) -> Seq<TokenView> {
    ts.map_values(|t: Token| t@)
}

pub proof fn lemma_views_of_push(ts: Seq<Token>, t: Token)
    ensures
        views_of(ts.push(t)) == views_of(ts).push(t@),
{
    assert(views_of(ts.push(t)) =~= views_of(ts).push(t@));
}

/// The model's shape of an executable scan result.
pub open spec fn scan_result_view(r: Result<Vec<Token>, crate::error::ScanError>) -> Result<
    Seq<TokenView>,
    ScanErrorView,
> {
    match r {
        Ok(ts) => Ok(views_of(ts@)),
        Err(e) => Err(e@),
    }
}

/// Puts already-produced tokens in front of the rest of a scan's result,
/// unless that rest is an error, which passes through unchanged.
pub open spec fn prepend_tokens(
    ts: Seq<TokenView>,
    r: Result<Seq<TokenView>, ScanErrorView>,
) -> Result<Seq<TokenView>, ScanErrorView> {
    match r {
        Ok(us) => Ok(ts + us),
        Err(e) => Err(e),
    }
}

pub proof fn lemma_prepend_cons(
    ts: Seq<TokenView>,
    t: TokenView,
    r: Result<Seq<TokenView>, ScanErrorView>,
)
    ensures
        prepend_tokens(ts, cons_token(t, r)) == prepend_tokens(ts.push(t), r),
{
    match r {
        Ok(us) => {
            assert(ts + (seq![t] + us) =~= ts.push(t) + us);
        },
        Err(_) => {},
    }
}

pub proof fn lemma_prepend_none(r: Result<Seq<TokenView>, ScanErrorView>)
    ensures
        prepend_tokens(Seq::<TokenView>::empty(), r) == r,
{
    match r {
        Ok(us) => {
            assert(Seq::<TokenView>::empty() + us =~= us);
        },
        Err(_) => {},
    }
}

pub proof fn lemma_prepend_done(ts: Seq<TokenView>)
    ensures
        prepend_tokens(ts, Ok(Seq::<TokenView>::empty())) == Ok::<
            Seq<TokenView>,
            ScanErrorView,
        >(ts),
{
    assert(ts + Seq::<TokenView>::empty() =~= ts);
}

/// Extends a string-scan outcome with characters already consumed to its
/// left.
pub open spec fn with_prefix(p: Seq<char>, r: StringScan) -> StringScan {
    match r {
        StringScan::Closed { next, literal } => StringScan::Closed { next, literal: p + literal },
        StringScan::Unterminated => StringScan::Unterminated,
    }
}

pub proof fn lemma_with_prefix_assoc(p: Seq<char>, q: Seq<char>, r: StringScan)
    ensures
        with_prefix(p, with_prefix(q, r)) == with_prefix(p + q, r),
{
    match r {
        StringScan::Closed { next, literal } => {
            assert(p + (q + literal) =~= (p + q) + literal);
        },
        StringScan::Unterminated => {},
    }
}

/// Counting newlines splits over a cursor move from `i` to `j`.
pub proof fn lemma_line_at_extend(s: Seq<char>, i: int, j: int)
    requires
        0 <= i <= j <= s.len(),
    ensures
        line_at(s, j) == line_at(s, i) + count_char(s, i, j, '\n'),
{
    lemma_count_char_split(s, 0, i, j, '\n');
}

/// A cursor move that consumes no newline leaves the line unchanged.
pub proof fn lemma_line_at_same(s: Seq<char>, i: int, j: int)
    requires
        0 <= i <= j <= s.len(),
        forall|k: int| i <= k < j ==> s[k] != '\n',
    ensures
        line_at(s, j) == line_at(s, i),
{
    lemma_line_at_extend(s, i, j);
    lemma_count_char_absent(s, i, j, '\n');
}

/// The line counter never runs ahead of the cursor.
pub proof fn lemma_line_at_bound(s: Seq<char>, i: int)
    requires
        0 <= i <= s.len(),
    ensures
        1 <= line_at(s, i) <= 1 + i,
{
    lemma_count_char_bounds(s, 0, i, '\n');
}

} // verus!
