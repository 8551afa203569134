use vstd::prelude::*;
use crate::error::{QResult, QueryError};
use crate::text::{count_placeholders, placeholders};

verus! {

/// Checks that the template `s` holds exactly `exp` placeholders.
pub fn placeholder_count(s: &str, exp: usize) -> (r: QResult<()>)
    ensures
        r is Ok <==> placeholders(s@) == exp,
        r matches Err(QueryError::IncorrectPlaceholderCount(t, e)) ==> t@ == s@ && e == exp,
{
    if count_placeholders(s) != exp {
        Err(QueryError::IncorrectPlaceholderCount(String::from_str(s), exp))
    } else {
        Ok(())
    }
}

} // verus!
