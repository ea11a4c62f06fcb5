use vstd::prelude::*;

use crate::error::Error;
use crate::text::{trim, trim_spec};

verus! {

/// Validates platform-specific identifiers (shortcodes, URLs) extracted from
/// user input: check the format, canonicalize where needed, and return the
/// canonical form or a validation error.
pub trait Validate {
    /// Validate the input and return a canonicalized string.
    fn validate(&self, input: &str) -> Result<String, Error>;
}

/// Trim ASCII whitespace from both ends and reject inputs that are empty
/// after trimming.
pub fn validate_non_empty(input: &str) -> (r: Result<&str, Error>)
    ensures
        r is Ok <==> trim_spec(input@).len() > 0,
        r matches Ok(t) ==> t@ == trim_spec(input@),
        r matches Err(e) ==> (e matches Error::ValidationFailed(m) && m@
            == "input cannot be empty"@),
{
    let trimmed = trim(input);
    if trimmed.unicode_len() == 0 {
        return Err(Error::validation_falied("input cannot be empty"));
    }
    Ok(trimmed)
}

} // verus!
