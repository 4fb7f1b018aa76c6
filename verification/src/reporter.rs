//! Presentation of diagnostics: a fixed severity prefix wrapped around a
//! message. The scanner itself never prints; whoever receives an error
//! decides whether to wrap and show it.

use vstd::prelude::*;

use vstd::string::StringExecFns;

verus! {

/// Wraps messages with a severity tag.
pub struct Reporter;

impl Reporter {
    /// The message behind an error tag.
    pub fn wrap_error(message: String) -> (r: String)
        ensures
            r@ == "[GT] [Error]: "@ + message@,
    {
        let mut r = String::from_str("[GT] [Error]: ");
        r.append(message.as_str());
        r
    }

    /// The message behind a warning tag.
    pub fn wrap_warning(message: String) -> (r: String)
        ensures
            r@ == "[GT] [Warning]: "@ + message@,
    {
        let mut r = String::from_str("[GT] [Warning]: ");
        r.append(message.as_str());
        r
    }
}

} // verus!
