//! Syntax errors: a human-readable message plus the source range it covers.
use vstd::prelude::*;
use crate::kind::SourceRange;

verus! {

/// One recorded parse error. Errors are accumulated in an ordered list and
/// attached to the finished tree; parsing never aborts on the first error.
#[derive(Debug, Clone, PartialEq)]
pub struct LuaParseError {
    pub message: String,
    pub range: SourceRange,
}

impl LuaParseError {
    pub fn from_source_range(message: &str, range: SourceRange) -> (e: LuaParseError)
        ensures
            e.message@ == message@,
            e.range == range,
    {
        LuaParseError { message: message.to_owned(), range }
    }
}

} // verus!
