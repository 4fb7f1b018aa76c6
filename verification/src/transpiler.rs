//! The driver seam. Driving a whole run — reading a file, scanning it,
//! printing tokens or the error — is I/O and lives with the caller; the
//! type stands here so a caller can hold one driver per run.

use vstd::prelude::*;

verus! {

/// A driver for whole runs; the run itself is the caller's, built from
/// `Tokenizer`, `Parser` and `Reporter`.
pub struct Transpiler {}

impl Transpiler {
    pub fn new() -> Transpiler {
        Transpiler {}
    }
}

} // verus!
