use vstd::prelude::*;

verus! {

/// How a predicate is linked to the one before it.
#[derive(Debug, Clone, Copy, PartialEq, Eq, Structural)]
pub enum BoolKind {
    And,
    Or,
}

/// The keyword of a connective.
pub open spec fn kind_word(k: BoolKind) -> Seq<char> {
    match k {
        BoolKind::And => seq!['a', 'n', 'd'],
        BoolKind::Or => seq!['o', 'r'],
    }
}

impl BoolKind {
    /// The SQL keyword of the connective.
    pub fn as_str(&self) -> (r: &'static str)
        ensures
            r@ == kind_word(*self),
    {
        match self {
            BoolKind::And => {
                proof {
                    reveal_strlit("and");
                }
                "and"
            },
            BoolKind::Or => {
                proof {
                    reveal_strlit("or");
                }
                "or"
            },
        }
    }
}

impl Default for BoolKind {
    fn default() -> (r: Self)
        ensures
            r == BoolKind::And,
    {
        BoolKind::And
    }
}

} // verus!
