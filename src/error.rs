use vstd::prelude::*;

verus! {

/// What building a statement can fail with.
#[derive(Debug)]
pub enum QueryError {
    /// The template (first field) does not hold the expected number of
    /// placeholders (second field).
    IncorrectPlaceholderCount(String, usize),
}

/// The result of a fallible construction step.
pub type QResult<T> = Result<T, QueryError>;

} // verus!
