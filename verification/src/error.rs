//! Scan errors. Every error is fatal to the scan that raised it: the scanner
//! returns it unchanged and emits no partial token list. Rendering a message
//! is offered here; printing it is the caller's business, never the
//! scanner's.

use vstd::prelude::*;

use vstd::string::StringExecFns;

use crate::model::{NumberBase, NumberFault, ScanErrorView};
use crate::text::{dec_str, usize_to_string};

verus! {

/// An error that stops a scan: a malformed numeric literal, or input that
/// ended inside a string literal.
#[derive(Debug, PartialEq, Eq)]
pub enum ScanError {
    /// A numeric literal was malformed: a decimal literal with more than one
    /// decimal point, or a base prefix with no digits after it. Carries the
    /// offending literal and the line it stood on.
    MalformedNumber { line: usize, literal: String, fault: NumberFault },
    /// Input ended while a string literal was open: the line the string
    /// began on, and the line input ran out on.
    UnterminatedString { start_line: usize, end_line: usize },
}

impl View for ScanError {
    type V = ScanErrorView;

    open spec fn view(&self) -> ScanErrorView {
        match self {
            ScanError::MalformedNumber { line, literal, fault } => ScanErrorView::MalformedNumber {
                line: *line as int,
                literal: literal@,
                fault: *fault,
            },
            ScanError::UnterminatedString { start_line, end_line } => ScanErrorView::UnterminatedString {
                start_line: *start_line as int,
                end_line: *end_line as int,
            },
        }
    }
}

/// The name of each numeric base, as written in error messages.
pub open spec fn base_name(base: NumberBase) -> Seq<char> {
    match base {
        NumberBase::Binary => "binary"@,
        NumberBase::Octal => "octal"@,
        NumberBase::Hexadecimal => "hexadecimal"@,
    }
}

/// The line an error is reported on: where the malformed literal stood, or
/// where input ran out inside an open string.
pub open spec fn error_line(e: ScanErrorView) -> int {
    match e {
        ScanErrorView::MalformedNumber { line, .. } => line,
        ScanErrorView::UnterminatedString { end_line, .. } => end_line,
    }
}

/// The description each error renders to, without the line prefix.
pub open spec fn error_description(e: ScanErrorView) -> Seq<char> {
    match e {
        ScanErrorView::MalformedNumber { literal, fault, .. } => match fault {
            NumberFault::MultipleDots => "expression \""@ + literal + "\" has multiple dots"@,
            NumberFault::MissingDigits { base } => "incomplete "@ + base_name(base)
                + " expression \""@ + literal + "\""@,
        },
        ScanErrorView::UnterminatedString { start_line, .. } => "unterminated string starting on line "@
            + dec_str(start_line as nat),
    }
}

/// The whole message: the line reached when the error was raised, then the
/// description.
pub open spec fn error_message(e: ScanErrorView) -> Seq<char> {
    "[line "@ + dec_str(error_line(e) as nat) + "]: "@ + error_description(e)
}

fn base_name_str(base: NumberBase) -> (r: &'static str)
    ensures
        r@ == base_name(base),
{
    match base {
        NumberBase::Binary => "binary",
        NumberBase::Octal => "octal",
        NumberBase::Hexadecimal => "hexadecimal",
    }
}

impl ScanError {
    /// Renders the error as `[line <n>]: <description>`.
    pub fn message(&self) -> (r: String)
        ensures
            r@ == error_message(self@),
    {
        match self {
            ScanError::MalformedNumber { line, literal, fault } => {
                let mut r = String::from_str("[line ");
                let line_text = usize_to_string(*line);
                r.append(line_text.as_str());
                r.append("]: ");
                match fault {
                    NumberFault::MultipleDots => {
                        r.append("expression \"");
                        r.append(literal.as_str());
                        r.append("\" has multiple dots");
                    },
                    NumberFault::MissingDigits { base } => {
                        r.append("incomplete ");
                        r.append(base_name_str(*base));
                        r.append(" expression \"");
                        r.append(literal.as_str());
                        r.append("\"");
                    },
                }
                r
            },
            ScanError::UnterminatedString { start_line, end_line } => {
                let mut r = String::from_str("[line ");
                let end_text = usize_to_string(*end_line);
                r.append(end_text.as_str());
                r.append("]: ");
                r.append("unterminated string starting on line ");
                let start_text = usize_to_string(*start_line);
                r.append(start_text.as_str());
                r
            },
        }
    }
}

} // verus!
