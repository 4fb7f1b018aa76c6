//! Laws of the scanner, stated over the model and proved once for every
//! input: blank input scans to nothing, operator tokens are greedy, and the
//! kept tokens' literals reproduce the input's significant characters.

use vstd::prelude::*;

use crate::model::{
    comment_end, cons_token, dec_end, has_multiple_dots, ident_end, is_blank_char,
    is_bracket_char, is_dec_digit, is_ident_start, is_op_char, base_of_letter,
    lemma_scan_while, lemma_string_scan_bounds, radix_end, scan_from, spec_scan, string_scan,
    token_view, ScanConfig, ScanErrorView, StringScan,
};
use crate::token::{TokenType, TokenView};

verus! {

/// Scanning an input that holds only whitespace and newlines produces an
/// empty token stream and no error.
pub proof fn lemma_blank_input_scans_empty(cfg: ScanConfig, s: Seq<char>)
    requires
        cfg.wf(),
        forall|k: int| 0 <= k < s.len() ==> is_blank_char(s[k]),
    ensures
        spec_scan(cfg, s) == Ok::<Seq<TokenView>, ScanErrorView>(Seq::<TokenView>::empty()),
{
    lemma_blank_scan_from(cfg, s, 0);
}

proof fn lemma_blank_scan_from(cfg: ScanConfig, s: Seq<char>, i: int)
    requires
        cfg.wf(),
        0 <= i <= s.len(),
        forall|k: int| 0 <= k < s.len() ==> is_blank_char(s[k]),
    ensures
        scan_from(cfg, s, i) == Ok::<Seq<TokenView>, ScanErrorView>(Seq::<TokenView>::empty()),
    decreases s.len() - i,
{
    if i < s.len() {
        assert(is_blank_char(s[i]));
        lemma_blank_scan_from(cfg, s, i + 1);
    }
}

/// An operator candidate followed directly by `=` scans as exactly one
/// operator token whose literal is the candidate with `=` appended, and the
/// scan resumes past both characters.
pub proof fn lemma_operator_greedy(cfg: ScanConfig, s: Seq<char>, i: int)
    requires
        0 <= i,
        i + 1 < s.len(),
        is_op_char(s[i]),
        s[i + 1] == '=',
    ensures
        scan_from(cfg, s, i) == cons_token(
            token_view(seq![s[i], '='], TokenType::Operator),
            scan_from(cfg, s, i + 2),
        ),
{
}

/// An operator candidate not followed by `=` scans as exactly one operator
/// token whose literal is the candidate alone, and the scan resumes at the
/// very next character.
pub proof fn lemma_operator_single(cfg: ScanConfig, s: Seq<char>, i: int)
    requires
        0 <= i < s.len(),
        is_op_char(s[i]),
        i + 1 < s.len() ==> s[i + 1] != '=',
    ensures
        scan_from(cfg, s, i) == cons_token(
            token_view(seq![s[i]], TokenType::Operator),
            scan_from(cfg, s, i + 1),
        ),
{
}

/// A token whose category agrees with the keyword table: a keyword token
/// spells a reserved word, an identifier token does not.
pub open spec fn well_classified(t: TokenView) -> bool {
    &&& t.kind is Keyword ==> crate::keyword::is_keyword_chars(t.literal)
    &&& t.kind is Identifier ==> !crate::keyword::is_keyword_chars(t.literal)
}

/// The scan never misclassifies: in every successful scan, each keyword
/// token spells a reserved word and no identifier token does.
pub proof fn lemma_no_misclassification(cfg: ScanConfig, s: Seq<char>)
    requires
        spec_scan(cfg, s) is Ok,
    ensures
        forall|j: int|
            0 <= j < spec_scan(cfg, s)->Ok_0.len() ==> #[trigger] well_classified(
                spec_scan(cfg, s)->Ok_0[j],
            ),
{
    lemma_classified_from(cfg, s, 0);
}

proof fn lemma_classified_cons(t: TokenView, ts: Seq<TokenView>)
    requires
        well_classified(t),
        forall|j: int| 0 <= j < ts.len() ==> #[trigger] well_classified(ts[j]),
    ensures
        forall|j: int|
            0 <= j < (seq![t] + ts).len() ==> #[trigger] well_classified((seq![t] + ts)[j]),
{
    assert forall|j: int| 0 <= j < (seq![t] + ts).len() implies #[trigger] well_classified(
        (seq![t] + ts)[j],
    ) by {
        if j == 0 {
            assert((seq![t] + ts)[j] == t);
        } else {
            assert((seq![t] + ts)[j] == ts[j - 1]);
        }
    }
}

proof fn lemma_classified_from(cfg: ScanConfig, s: Seq<char>, i: int)
    requires
        0 <= i <= s.len(),
        scan_from(cfg, s, i) is Ok,
    ensures
        forall|j: int|
            0 <= j < scan_from(cfg, s, i)->Ok_0.len() ==> #[trigger] well_classified(
                scan_from(cfg, s, i)->Ok_0[j],
            ),
    decreases s.len() - i,
{
    if i < s.len() {
        let c = s[i];
        if is_op_char(c) {
            if i + 1 < s.len() && s[i + 1] == '=' {
                lemma_classified_from(cfg, s, i + 2);
                lemma_classified_cons(
                    token_view(seq![c, '='], TokenType::Operator),
                    scan_from(cfg, s, i + 2)->Ok_0,
                );
            } else {
                lemma_classified_from(cfg, s, i + 1);
                lemma_classified_cons(
                    token_view(seq![c], TokenType::Operator),
                    scan_from(cfg, s, i + 1)->Ok_0,
                );
            }
        } else if is_bracket_char(c) {
            lemma_classified_from(cfg, s, i + 1);
            lemma_classified_cons(
                token_view(seq![c], TokenType::Bracket),
                scan_from(cfg, s, i + 1)->Ok_0,
            );
        } else if c == cfg.comment_marker {
            let e = comment_end(s, i + 1);
            let next = if e < s.len() {
                e + 1
            } else {
                e
            };
            lemma_scan_while(s, i + 1, |ch: char| ch != '\n');
            lemma_classified_from(cfg, s, next);
            lemma_classified_cons(
                token_view(s.subrange(i + 1, e), TokenType::Comment),
                scan_from(cfg, s, next)->Ok_0,
            );
        } else if c == '"' {
            match string_scan(s, i + 1) {
                StringScan::Closed { next, literal } => {
                    lemma_string_scan_bounds(s, i + 1);
                    lemma_classified_from(cfg, s, next);
                    lemma_classified_cons(
                        token_view(literal, TokenType::String),
                        scan_from(cfg, s, next)->Ok_0,
                    );
                },
                StringScan::Unterminated => {},
            }
        } else if is_dec_digit(c) {
            if cfg.prefixed_bases && c == '0' && i + 1 < s.len() && base_of_letter(s[i + 1])
                is Some {
                let base = base_of_letter(s[i + 1])->Some_0;
                let e = radix_end(s, i + 2, base);
                lemma_scan_while(s, i + 2, crate::model::base_digit(base));
                if e != i + 2 {
                    lemma_classified_from(cfg, s, e);
                    lemma_classified_cons(
                        token_view(s.subrange(i, e), TokenType::Number),
                        scan_from(cfg, s, e)->Ok_0,
                    );
                }
            } else {
                let e = dec_end(s, i);
                lemma_scan_while(s, i, |ch: char| crate::model::is_dec_body_char(ch));
                if !has_multiple_dots(s, i, e) {
                    lemma_classified_from(cfg, s, e);
                    lemma_classified_cons(
                        token_view(s.subrange(i, e), TokenType::Number),
                        scan_from(cfg, s, e)->Ok_0,
                    );
                }
            }
        } else if is_ident_start(c) {
            let e = ident_end(s, i);
            let lit = s.subrange(i, e);
            lemma_scan_while(s, i, |ch: char| crate::model::is_ident_char(ch));
            lemma_classified_from(cfg, s, e);
            lemma_classified_cons(
                token_view(
                    lit,
                    if crate::keyword::is_keyword_chars(lit) {
                        TokenType::Keyword
                    } else {
                        TokenType::Identifier
                    },
                ),
                scan_from(cfg, s, e)->Ok_0,
            );
        } else {
            lemma_classified_from(cfg, s, i + 1);
        }
    }
}

/// The token categories whose literals are kept by the round-trip law:
/// everything except comments and string literals.
pub open spec fn kept_kind(k: TokenType) -> bool {
    k is Bracket || k is Operator || k is Identifier || k is Keyword || k is Number
}

/// The literals of the kept tokens, concatenated in order.
pub open spec fn kept_literals(ts: Seq<TokenView>) -> Seq<char>
    decreases ts.len(),
{
    if ts.len() == 0 {
        seq![]
    } else {
        (if kept_kind(ts[0].kind) {
            ts[0].literal
        } else {
            seq![]
        }) + kept_literals(ts.drop_first())
    }
}

proof fn lemma_kept_literals_cons(t: TokenView, ts: Seq<TokenView>)
    ensures
        kept_literals(seq![t] + ts) == (if kept_kind(t.kind) {
            t.literal
        } else {
            seq![]
        }) + kept_literals(ts),
{
    let u = seq![t] + ts;
    assert(u[0] == t);
    assert(u.drop_first() =~= ts);
}

/// The characters of `s` from `i` on that the scan keeps: what remains of
/// the input once whitespace and skipped characters, comments with their
/// markers and terminating newlines, and string literals with their quotes
/// are removed.
pub open spec fn significant_chars(cfg: ScanConfig, s: Seq<char>, i: int) -> Seq<char>
    decreases s.len() - i,
    when 0 <= i
{
    if i >= s.len() {
        seq![]
    } else {
        let c = s[i];
        if is_op_char(c) {
            if i + 1 < s.len() && s[i + 1] == '=' {
                seq![c, '='] + significant_chars(cfg, s, i + 2)
            } else {
                seq![c] + significant_chars(cfg, s, i + 1)
            }
        } else if is_bracket_char(c) {
            seq![c] + significant_chars(cfg, s, i + 1)
        } else if c == cfg.comment_marker {
            let e = comment_end(s, i + 1);
            let next = if e < s.len() {
                e + 1
            } else {
                e
            };
            proof {
                lemma_scan_while(s, i + 1, |ch: char| ch != '\n');
            }
            significant_chars(cfg, s, next)
        } else if c == '"' {
            match string_scan(s, i + 1) {
                StringScan::Closed { next, .. } => {
                    proof {
                        lemma_string_scan_bounds(s, i + 1);
                    }
                    significant_chars(cfg, s, next)
                },
                StringScan::Unterminated => seq![],
            }
        } else if is_dec_digit(c) {
            if cfg.prefixed_bases && c == '0' && i + 1 < s.len() && base_of_letter(s[i + 1])
                is Some {
                let base = base_of_letter(s[i + 1])->Some_0;
                let e = radix_end(s, i + 2, base);
                proof {
                    lemma_scan_while(s, i + 2, crate::model::base_digit(base));
                }
                if e == i + 2 {
                    seq![]
                } else {
                    s.subrange(i, e) + significant_chars(cfg, s, e)
                }
            } else {
                let e = dec_end(s, i);
                proof {
                    lemma_scan_while(s, i, |ch: char| crate::model::is_dec_body_char(ch));
                }
                if has_multiple_dots(s, i, e) {
                    seq![]
                } else {
                    s.subrange(i, e) + significant_chars(cfg, s, e)
                }
            }
        } else if is_ident_start(c) {
            let e = ident_end(s, i);
            proof {
                lemma_scan_while(s, i, |ch: char| crate::model::is_ident_char(ch));
            }
            s.subrange(i, e) + significant_chars(cfg, s, e)
        } else {
            significant_chars(cfg, s, i + 1)
        }
    }
}

/// Round trip: when a scan succeeds, concatenating the literals of its
/// bracket, operator, identifier, keyword and number tokens, in order,
/// reproduces the significant characters of the input — nothing is dropped
/// but whitespace, skipped characters, comments and string literals.
pub proof fn lemma_scan_round_trip(cfg: ScanConfig, s: Seq<char>)
    requires
        spec_scan(cfg, s) is Ok,
    ensures
        kept_literals(spec_scan(cfg, s)->Ok_0) == significant_chars(cfg, s, 0),
{
    lemma_round_trip_from(cfg, s, 0);
}

proof fn lemma_round_trip_from(cfg: ScanConfig, s: Seq<char>, i: int)
    requires
        0 <= i <= s.len(),
        scan_from(cfg, s, i) is Ok,
    ensures
        kept_literals(scan_from(cfg, s, i)->Ok_0) == significant_chars(cfg, s, i),
    decreases s.len() - i,
{
    if i >= s.len() {
        assert(kept_literals(seq![]) =~= Seq::<char>::empty());
    } else {
        let c = s[i];
        if is_op_char(c) {
            if i + 1 < s.len() && s[i + 1] == '=' {
                lemma_round_trip_from(cfg, s, i + 2);
                lemma_kept_literals_cons(
                    token_view(seq![c, '='], TokenType::Operator),
                    scan_from(cfg, s, i + 2)->Ok_0,
                );
            } else {
                lemma_round_trip_from(cfg, s, i + 1);
                lemma_kept_literals_cons(
                    token_view(seq![c], TokenType::Operator),
                    scan_from(cfg, s, i + 1)->Ok_0,
                );
            }
        } else if is_bracket_char(c) {
            lemma_round_trip_from(cfg, s, i + 1);
            lemma_kept_literals_cons(
                token_view(seq![c], TokenType::Bracket),
                scan_from(cfg, s, i + 1)->Ok_0,
            );
        } else if c == cfg.comment_marker {
            let e = comment_end(s, i + 1);
            let next = if e < s.len() {
                e + 1
            } else {
                e
            };
            lemma_scan_while(s, i + 1, |ch: char| ch != '\n');
            lemma_round_trip_from(cfg, s, next);
            lemma_kept_literals_cons(
                token_view(s.subrange(i + 1, e), TokenType::Comment),
                scan_from(cfg, s, next)->Ok_0,
            );
            assert(Seq::<char>::empty() + significant_chars(cfg, s, next) =~= significant_chars(
                cfg,
                s,
                next,
            ));
        } else if c == '"' {
            match string_scan(s, i + 1) {
                StringScan::Closed { next, literal } => {
                    lemma_string_scan_bounds(s, i + 1);
                    lemma_round_trip_from(cfg, s, next);
                    lemma_kept_literals_cons(
                        token_view(literal, TokenType::String),
                        scan_from(cfg, s, next)->Ok_0,
                    );
                    assert(Seq::<char>::empty() + significant_chars(cfg, s, next)
                        =~= significant_chars(cfg, s, next));
                },
                StringScan::Unterminated => {},
            }
        } else if is_dec_digit(c) {
            if cfg.prefixed_bases && c == '0' && i + 1 < s.len() && base_of_letter(s[i + 1])
                is Some {
                let base = base_of_letter(s[i + 1])->Some_0;
                let e = radix_end(s, i + 2, base);
                lemma_scan_while(s, i + 2, crate::model::base_digit(base));
                if e != i + 2 {
                    lemma_round_trip_from(cfg, s, e);
                    lemma_kept_literals_cons(
                        token_view(s.subrange(i, e), TokenType::Number),
                        scan_from(cfg, s, e)->Ok_0,
                    );
                }
            } else {
                let e = dec_end(s, i);
                lemma_scan_while(s, i, |ch: char| crate::model::is_dec_body_char(ch));
                if !has_multiple_dots(s, i, e) {
                    lemma_round_trip_from(cfg, s, e);
                    lemma_kept_literals_cons(
                        token_view(s.subrange(i, e), TokenType::Number),
                        scan_from(cfg, s, e)->Ok_0,
                    );
                }
            }
        } else if is_ident_start(c) {
            let e = ident_end(s, i);
            let lit = s.subrange(i, e);
            lemma_scan_while(s, i, |ch: char| crate::model::is_ident_char(ch));
            lemma_round_trip_from(cfg, s, e);
            lemma_kept_literals_cons(
                token_view(
                    lit,
                    if crate::keyword::is_keyword_chars(lit) {
                        TokenType::Keyword
                    } else {
                        TokenType::Identifier
                    },
                ),
                scan_from(cfg, s, e)->Ok_0,
            );
        } else {
            lemma_round_trip_from(cfg, s, i + 1);
        }
    }
}

} // verus!
