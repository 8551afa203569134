use vstd::prelude::*;

verus! {

/// The direction of an ordering.
#[derive(Debug, Clone, Copy, PartialEq, Eq, Structural)]
pub enum OrderDir {
    Asc,
    Desc,
}

/// The keyword of a direction.
pub open spec fn dir_word(d: OrderDir) -> Seq<char> {
    match d {
        OrderDir::Asc => seq!['a', 's', 'c'],
        OrderDir::Desc => seq!['d', 'e', 's', 'c'],
    }
}

impl OrderDir {
    /// The SQL keyword of the direction.
    pub fn as_str(&self) -> (r: &'static str)
        ensures
            r@ == dir_word(*self),
    {
        match self {
            OrderDir::Asc => {
                proof {
                    reveal_strlit("asc");
                }
                "asc"
            },
            OrderDir::Desc => {
                proof {
                    reveal_strlit("desc");
                }
                "desc"
            },
        }
    }
}

} // verus!
