use vstd::prelude::*;

verus! {

/// A value that may be given bare or as an `Option`.
pub trait IntoOptional<T>: Sized {
    /// The value as an `Option`.
    spec fn optional(&self) -> Option<T>;

    /// Converts into an `Option`.
    fn into_optional(self) -> (r: Option<T>)
        ensures
            r == self.optional(),
    ;
}

impl IntoOptional<u64> for u64 {
    open spec fn optional(&self) -> Option<u64> {
        Some(*self)
    }

    fn into_optional(self) -> (r: Option<u64>) {
        Some(self)
    }
}

impl IntoOptional<u64> for Option<u64> {
    open spec fn optional(&self) -> Option<u64> {
        *self
    }

    fn into_optional(self) -> (r: Option<u64>) {
        self
    }
}

} // verus!
