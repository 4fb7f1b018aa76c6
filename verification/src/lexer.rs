//! The semicolon dialect of the scanner: `;` opens a line comment and
//! numeric literals are decimal only.

use vstd::prelude::*;

use crate::error::ScanError;
use crate::model::{scan_result_view, spec_scan, ScanConfig};
use crate::scanner::Scanner;
use crate::token::Token;

verus! {

/// The dialect a `Lexer` scans with.
pub open spec fn lexer_dialect() -> ScanConfig {
    ScanConfig { comment_marker: ';', prefixed_bases: false }
}

/// A scanner for the semicolon dialect. It keeps no state between
/// invocations: every call of `lex` is a function of its argument alone.
pub struct Lexer {
    scanner: Scanner,
}

impl Lexer {
    /// A lexer always scans the semicolon dialect.
    pub closed spec fn wf(&self) -> bool {
        self.scanner.config == lexer_dialect()
    }

    pub fn new() -> (r: Lexer)
        ensures
            r.wf(),
    {
        Lexer { scanner: Scanner::new(ScanConfig { comment_marker: ';', prefixed_bases: false }) }
    }

    /// Scans a whole source text into its token stream, or the first error.
    pub fn lex(&self, code: String) -> (r: Result<Vec<Token>, ScanError>)
        requires
            self.wf(),
            code@.len() < usize::MAX,
        ensures
            scan_result_view(r) == spec_scan(lexer_dialect(), code@),
    {
        self.scanner.scan(code.as_str())
    }
}

} // verus!
