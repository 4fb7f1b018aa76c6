//! The hash dialect of the scanner: `#` opens a line comment and the
//! base-prefixed numeric literals `0b`, `0o` and `0x` are recognised.

use vstd::prelude::*;

use crate::error::ScanError;
use crate::model::{scan_result_view, spec_scan, ScanConfig};
use crate::scanner::Scanner;
use crate::token::Token;

verus! {

/// The dialect a `Tokenizer` scans with.
pub open spec fn tokenizer_dialect() -> ScanConfig {
    ScanConfig { comment_marker: '#', prefixed_bases: true }
}

/// A scanner for the hash dialect. It keeps no state between invocations:
/// every call of `tokenize` is a function of its argument alone.
pub struct Tokenizer {
    scanner: Scanner,
}

impl Tokenizer {
    /// A tokenizer always scans the hash dialect.
    pub closed spec fn wf(&self) -> bool {
        self.scanner.config == tokenizer_dialect()
    }

    pub fn new() -> (r: Tokenizer)
        ensures
            r.wf(),
    {
        Tokenizer {
            scanner: Scanner::new(ScanConfig { comment_marker: '#', prefixed_bases: true }),
        }
    }

    /// Scans a whole source text into its token stream, or the first error.
    pub fn tokenize(&self, code: String) -> (r: Result<Vec<Token>, ScanError>)
        requires
            self.wf(),
            code@.len() < usize::MAX,
        ensures
            scan_result_view(r) == spec_scan(tokenizer_dialect(), code@),
    {
        self.scanner.scan(code.as_str())
    }
}

} // verus!
