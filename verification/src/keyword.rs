//! The keyword table: a fixed set of reserved word spellings. A keyword is a
//! word of the identifier grammar, so membership is an exact, case-sensitive
//! string comparison against a candidate that was already scanned.

use vstd::prelude::*;

use crate::text::str_eq;

verus! {

/// The reserved words.
#[allow(non_camel_case_types)]
#[derive(Clone, Copy, Debug, PartialEq, Eq, Structural)]
pub enum Keyword {
    CONST,
    IF,
    ELSE,
    VAL_FALSE,
    VAL_TRUE,
    WHILE,
}

/// The spelling of each reserved word.
pub open spec fn keyword_chars(k: Keyword) -> Seq<char> {
    match k {
        Keyword::CONST => "const"@,
        Keyword::IF => "if"@,
        Keyword::ELSE => "else"@,
        Keyword::VAL_FALSE => "false"@,
        Keyword::VAL_TRUE => "true"@,
        Keyword::WHILE => "while"@,
    }
}

/// Whether a character sequence spells a reserved word.
pub open spec fn is_keyword_chars(s: Seq<char>) -> bool {
    s == "const"@ || s == "if"@ || s == "else"@ || s == "false"@ || s == "true"@ || s == "while"@
}

/// A sequence spells a reserved word exactly when some entry of the table
/// spells it: the table is complete for the membership test the scanner uses.
pub proof fn lemma_keyword_table_complete(s: Seq<char>)
    ensures
        is_keyword_chars(s) <==> exists|k: Keyword| keyword_chars(k) == s,
{
    if is_keyword_chars(s) {
        if s == "const"@ {
            assert(keyword_chars(Keyword::CONST) == s);
        } else if s == "if"@ {
            assert(keyword_chars(Keyword::IF) == s);
        } else if s == "else"@ {
            assert(keyword_chars(Keyword::ELSE) == s);
        } else if s == "false"@ {
            assert(keyword_chars(Keyword::VAL_FALSE) == s);
        } else if s == "true"@ {
            assert(keyword_chars(Keyword::VAL_TRUE) == s);
        } else {
            assert(keyword_chars(Keyword::WHILE) == s);
        }
    }
}

impl Keyword {
    /// The spelling of this reserved word.
    pub fn as_str(&self) -> (r: &'static str)
        ensures
            r@ == keyword_chars(*self),
    {
        match self {
            Keyword::CONST => "const",
            Keyword::IF => "if",
            Keyword::ELSE => "else",
            Keyword::VAL_FALSE => "false",
            Keyword::VAL_TRUE => "true",
            Keyword::WHILE => "while",
        }
    }

    /// Every reserved word, each exactly once.
    pub fn iterator() -> (r: Vec<Keyword>)
        ensures
            r@ == seq![
                Keyword::CONST,
                Keyword::IF,
                Keyword::ELSE,
                Keyword::VAL_FALSE,
                Keyword::VAL_TRUE,
                Keyword::WHILE,
            ],
    {
        let mut r: Vec<Keyword> = Vec::new();
        r.push(Keyword::CONST);
        r.push(Keyword::IF);
        r.push(Keyword::ELSE);
        r.push(Keyword::VAL_FALSE);
        r.push(Keyword::VAL_TRUE);
        r.push(Keyword::WHILE);
        proof {
            assert(r@ =~= seq![
                Keyword::CONST,
                Keyword::IF,
                Keyword::ELSE,
                Keyword::VAL_FALSE,
                Keyword::VAL_TRUE,
                Keyword::WHILE,
            ]);
        }
        r
    }

    /// Whether the candidate spells a reserved word.
    pub fn contains(candidate: &str) -> (r: bool)
        ensures
            r == is_keyword_chars(candidate@),
    {
        str_eq(candidate, "const") || str_eq(candidate, "if") || str_eq(candidate, "else")
            || str_eq(candidate, "false") || str_eq(candidate, "true") || str_eq(
            candidate,
            "while",
        )
    }
}

} // verus!
