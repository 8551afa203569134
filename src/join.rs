use vstd::prelude::*;
use crate::error::{QResult, QueryError};
use crate::statement::Select;
use crate::text::placeholders;
use crate::util::placeholder_count;

verus! {

/// The kind of a join.
#[derive(Debug, Clone, Copy, PartialEq, Eq, Structural)]
pub enum JoinKind {
    Left,
}

/// The keyword of a join kind.
pub open spec fn join_word(k: JoinKind) -> Seq<char> {
    match k {
        JoinKind::Left => seq!['l', 'e', 'f', 't'],
    }
}

impl JoinKind {
    /// The SQL keyword of the join kind.
    pub fn as_str(&self) -> (r: &'static str)
        ensures
            r@ == join_word(*self),
    {
        match self {
            JoinKind::Left => {
                proof {
                    reveal_strlit("left");
                }
                "left"
            },
        }
    }
}

/// One join clause: a literal clause, or a template with one placeholder that
/// a nested statement fills.
#[derive(Debug)]
pub enum Join {
    Simple(String),
    SubQuery(String, Box<Select>),
}

impl Join {
    /// A literal join clause.
    pub fn literal(clause: &str) -> (r: Join)
        ensures
            r matches Join::Simple(c) && c@ == clause@,
    {
        Join::Simple(String::from_str(clause))
    }

    /// A join clause whose one placeholder `select` fills.
    pub fn sub_query(expr: &str, select: Select) -> (r: QResult<Join>)
        ensures
            r is Ok <==> placeholders(expr@) == 1,
            r matches Ok(j) ==> j matches Join::SubQuery(t, s) && t@ == expr@ && *s == select,
            r matches Err(QueryError::IncorrectPlaceholderCount(t, n)) ==> t@ == expr@ && n == 1,
    {
        placeholder_count(expr, 1)?;
        Ok(Join::SubQuery(String::from_str(expr), Box::new(select)))
    }
}

/// Something a join clause can be built from: a literal clause, or a
/// template with the statement that fills its one placeholder.
pub trait TryIntoJoin: Sized {
    /// Whether building succeeds.
    spec fn accepted(&self) -> bool;

    /// Whether `j` is the clause built.
    spec fn makes(&self, j: Join) -> bool;

    /// The template that a failure reports.
    spec fn template(&self) -> Seq<char>;

    /// Builds the clause.
    fn try_into_join(self) -> (r: QResult<Join>)
        ensures
            r is Ok <==> self.accepted(),
            r matches Ok(j) ==> self.makes(j),
            r matches Err(QueryError::IncorrectPlaceholderCount(t, n)) ==> t@ == self.template() && n == 1,
    ;
}

impl TryIntoJoin for Join {
    open spec fn accepted(&self) -> bool {
        true
    }

    open spec fn makes(&self, j: Join) -> bool {
        j == *self
    }

    open spec fn template(&self) -> Seq<char> {
        Seq::empty()
    }

    fn try_into_join(self) -> (r: QResult<Join>) {
        Ok(self)
    }
}

impl<'a> TryIntoJoin for &'a str {
    open spec fn accepted(&self) -> bool {
        true
    }

    open spec fn makes(&self, j: Join) -> bool {
        j matches Join::Simple(c) && c@ == self@
    }

    open spec fn template(&self) -> Seq<char> {
        self@
    }

    fn try_into_join(self) -> (r: QResult<Join>) {
        Ok(Join::literal(self))
    }
}

impl TryIntoJoin for String {
    open spec fn accepted(&self) -> bool {
        true
    }

    open spec fn makes(&self, j: Join) -> bool {
        j matches Join::Simple(c) && c@ == self@
    }

    open spec fn template(&self) -> Seq<char> {
        self@
    }

    fn try_into_join(self) -> (r: QResult<Join>) {
        Ok(Join::Simple(self))
    }
}

impl<'a> TryIntoJoin for (&'a str, Select) {
    open spec fn accepted(&self) -> bool {
        placeholders(self.0@) == 1
    }

    open spec fn makes(&self, j: Join) -> bool {
        j matches Join::SubQuery(t, s) && t@ == self.0@ && *s == self.1
    }

    open spec fn template(&self) -> Seq<char> {
        self.0@
    }

    fn try_into_join(self) -> (r: QResult<Join>) {
        Join::sub_query(self.0, self.1)
    }
}

} // verus!
