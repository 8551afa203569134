//! The shapes in which a grouping can be given.
use vstd::prelude::*;
use crate::select::{owned_all, owned_slice};
use crate::text::{comma, joined, lemma_joined_push, str_views, views};

verus! {

/// Relies on `itertools::join`: the items' text with `sep` between each two,
/// and the empty string for no items.
#[verifier::external_body]
fn join_items(items: &Vec<String>, sep: &str) -> (r: String)
    ensures
        r@ == joined(views(items@), sep@),
{
    itertools::join(items, sep)
}

/// One or more grouping expressions, in order.
pub trait IntoGroupBy: Sized {
    /// The grouping expression.
    spec fn grouping(&self) -> Seq<char>;

    /// The grouping expression as an owned string.
    fn into_group_by(self) -> (r: String)
        ensures
            r@ == self.grouping(),
    ;
}

/// Appends the comma separator and `b` to `r`.
fn push_item(r: &mut String, b: &str)
    ensures
        final(r)@ == old(r)@ + comma() + b@,
{
    proof {
        reveal_strlit(", ");
        assert(", "@ =~= comma());
    }
    r.append(", ");
    r.append(b);
}

impl<'a> IntoGroupBy for &'a str {
    open spec fn grouping(&self) -> Seq<char> {
        self@
    }

    fn into_group_by(self) -> (r: String) {
        String::from_str(self)
    }
}

impl IntoGroupBy for String {
    open spec fn grouping(&self) -> Seq<char> {
        self@
    }

    fn into_group_by(self) -> (r: String) {
        self
    }
}

impl IntoGroupBy for Vec<String> {
    open spec fn grouping(&self) -> Seq<char> {
        joined(views(self@), comma())
    }

    fn into_group_by(self) -> (r: String) {
        proof {
            reveal_strlit(", ");
            assert(", "@ =~= comma());
        }
        join_items(&self, ", ")
    }
}

impl<'a> IntoGroupBy for Vec<&'a str> {
    open spec fn grouping(&self) -> Seq<char> {
        joined(str_views(self@), comma())
    }

    fn into_group_by(self) -> (r: String) {
        proof {
            reveal_strlit(", ");
            assert(", "@ =~= comma());
        }
        join_items(&owned_all(&self), ", ")
    }
}

impl<'a> IntoGroupBy for (&'a str, &'a str) {
    open spec fn grouping(&self) -> Seq<char> {
        joined(seq![self.0@, self.1@], comma())
    }

    fn into_group_by(self) -> (r: String) {
        let mut r = String::from_str(self.0);
        push_item(&mut r, self.1);
        proof {
            lemma_joined_push(seq![], self.0@, comma());
            lemma_joined_push(seq![self.0@], self.1@, comma());
            assert(seq![self.0@] =~= Seq::<Seq<char>>::empty().push(self.0@));
            assert(seq![self.0@, self.1@] =~= seq![self.0@].push(self.1@));
        }
        r
    }
}

impl<'a> IntoGroupBy for (&'a str, &'a str, &'a str) {
    open spec fn grouping(&self) -> Seq<char> {
        joined(seq![self.0@, self.1@, self.2@], comma())
    }

    fn into_group_by(self) -> (r: String) {
        let mut r = String::from_str(self.0);
        push_item(&mut r, self.1);
        push_item(&mut r, self.2);
        proof {
            lemma_joined_push(seq![], self.0@, comma());
            lemma_joined_push(seq![self.0@], self.1@, comma());
            lemma_joined_push(seq![self.0@, self.1@], self.2@, comma());
            assert(seq![self.0@] =~= Seq::<Seq<char>>::empty().push(self.0@));
            assert(seq![self.0@, self.1@] =~= seq![self.0@].push(self.1@));
            assert(seq![self.0@, self.1@, self.2@] =~= seq![self.0@, self.1@].push(self.2@));
            assert(r@ =~= joined(seq![self.0@, self.1@, self.2@], comma()));
        }
        r
    }
}

impl<'a> IntoGroupBy for (&'a str, &'a str, &'a str, &'a str) {
    open spec fn grouping(&self) -> Seq<char> {
        joined(seq![self.0@, self.1@, self.2@, self.3@], comma())
    }

    fn into_group_by(self) -> (r: String) {
        let mut r = String::from_str(self.0);
        push_item(&mut r, self.1);
        push_item(&mut r, self.2);
        push_item(&mut r, self.3);
        proof {
            lemma_joined_push(seq![], self.0@, comma());
            lemma_joined_push(seq![self.0@], self.1@, comma());
            lemma_joined_push(seq![self.0@, self.1@], self.2@, comma());
            lemma_joined_push(seq![self.0@, self.1@, self.2@], self.3@, comma());
            assert(seq![self.0@] =~= Seq::<Seq<char>>::empty().push(self.0@));
            assert(seq![self.0@, self.1@] =~= seq![self.0@].push(self.1@));
            assert(seq![self.0@, self.1@, self.2@] =~= seq![self.0@, self.1@].push(self.2@));
            assert(seq![self.0@, self.1@, self.2@, self.3@] =~= seq![self.0@, self.1@, self.2@].push(self.3@));
            assert(r@ =~= joined(seq![self.0@, self.1@, self.2@, self.3@], comma()));
        }
        r
    }
}

impl<'a, 'b> IntoGroupBy for &'b [&'a str] {
    open spec fn grouping(&self) -> Seq<char> {
        joined(str_views(self@), comma())
    }

    fn into_group_by(self) -> (r: String) {
        proof {
            reveal_strlit(", ");
            assert(", "@ =~= comma());
        }
        join_items(&owned_slice(self), ", ")
    }
}

} // verus!
