//! The shapes in which output columns can be given.
use vstd::prelude::*;
use crate::text::{str_views, views};

verus! {

/// One or more column expressions, in order.
pub trait IntoSelect: Sized {
    /// The columns, in order.
    spec fn columns(&self) -> Seq<Seq<char>>;

    /// The columns as owned strings.
    fn into_select(self) -> (r: Vec<String>)
        ensures
            views(r@) == self.columns(),
    ;
}

/// Copies string slices into owned strings.
pub(crate) fn owned_all(items: &Vec<&str>) -> (r: Vec<String>)
    ensures
        views(r@) == str_views(items@),
{
    let mut out: Vec<String> = Vec::new();
    let mut i: usize = 0;
    while i < items.len()
        invariant
            i <= items.len(),
            views(out@) == str_views(items@.subrange(0, i as int)),
        decreases items.len() - i,
    {
        let ghost before = out@;
        out.push(String::from_str(items[i]));
        proof {
            assert(items@.subrange(0, i as int + 1) =~= items@.subrange(0, i as int).push(items@[i as int]));
            assert(views(out@) =~= views(before).push(items@[i as int]@));
        }
        i = i + 1;
        assert(views(out@) =~= str_views(items@.subrange(0, i as int)));
    }
    assert(items@.subrange(0, i as int) =~= items@);
    out
}

impl<'a> IntoSelect for &'a str {
    open spec fn columns(&self) -> Seq<Seq<char>> {
        seq![self@]
    }

    fn into_select(self) -> (r: Vec<String>) {
        let r = vec![String::from_str(self)];
        assert(views(r@) =~= seq![self@]);
        r
    }
}

impl IntoSelect for String {
    open spec fn columns(&self) -> Seq<Seq<char>> {
        seq![self@]
    }

    fn into_select(self) -> (r: Vec<String>) {
        let ghost s = self@;
        let r = vec![self];
        assert(views(r@) =~= seq![s]);
        r
    }
}

impl IntoSelect for Vec<String> {
    open spec fn columns(&self) -> Seq<Seq<char>> {
        views(self@)
    }

    fn into_select(self) -> (r: Vec<String>) {
        self
    }
}

impl<'a> IntoSelect for Vec<&'a str> {
    open spec fn columns(&self) -> Seq<Seq<char>> {
        str_views(self@)
    }

    fn into_select(self) -> (r: Vec<String>) {
        owned_all(&self)
    }
}

impl<'a> IntoSelect for (&'a str, &'a str) {
    open spec fn columns(&self) -> Seq<Seq<char>> {
        seq![self.0@, self.1@]
    }

    fn into_select(self) -> (r: Vec<String>) {
        let r = vec![String::from_str(self.0), String::from_str(self.1)];
        assert(views(r@) =~= seq![self.0@, self.1@]);
        r
    }
}

impl<'a> IntoSelect for (&'a str, &'a str, &'a str) {
    open spec fn columns(&self) -> Seq<Seq<char>> {
        seq![self.0@, self.1@, self.2@]
    }

    fn into_select(self) -> (r: Vec<String>) {
        let r = vec![String::from_str(self.0), String::from_str(self.1), String::from_str(self.2)];
        assert(views(r@) =~= seq![self.0@, self.1@, self.2@]);
        r
    }
}

impl<'a> IntoSelect for (&'a str, &'a str, &'a str, &'a str) {
    open spec fn columns(&self) -> Seq<Seq<char>> {
        seq![self.0@, self.1@, self.2@, self.3@]
    }

    fn into_select(self) -> (r: Vec<String>) {
        let r = vec![
            String::from_str(self.0),
            String::from_str(self.1),
            String::from_str(self.2),
            String::from_str(self.3),
        ];
        assert(views(r@) =~= seq![self.0@, self.1@, self.2@, self.3@]);
        r
    }
}

impl<'a, 'b> IntoSelect for &'b [&'a str] {
    open spec fn columns(&self) -> Seq<Seq<char>> {
        str_views(self@)
    }

    fn into_select(self) -> (r: Vec<String>) {
        owned_slice(self)
    }
}

impl IntoSelect for (String, String) {
    open spec fn columns(&self) -> Seq<Seq<char>> {
        seq![self.0@, self.1@]
    }

    fn into_select(self) -> (r: Vec<String>) {
        let ghost v = seq![self.0@, self.1@];
        let r = vec![self.0, self.1];
        assert(views(r@) =~= v);
        r
    }
}

impl IntoSelect for (String, String, String) {
    open spec fn columns(&self) -> Seq<Seq<char>> {
        seq![self.0@, self.1@, self.2@]
    }

    fn into_select(self) -> (r: Vec<String>) {
        let ghost v = seq![self.0@, self.1@, self.2@];
        let r = vec![self.0, self.1, self.2];
        assert(views(r@) =~= v);
        r
    }
}

impl IntoSelect for (String, String, String, String) {
    open spec fn columns(&self) -> Seq<Seq<char>> {
        seq![self.0@, self.1@, self.2@, self.3@]
    }

    fn into_select(self) -> (r: Vec<String>) {
        let ghost v = seq![self.0@, self.1@, self.2@, self.3@];
        let r = vec![self.0, self.1, self.2, self.3];
        assert(views(r@) =~= v);
        r
    }
}

/// Copies a slice of string slices into owned strings.
pub(crate) fn owned_slice(items: &[&str]) -> (r: Vec<String>)
    ensures
        views(r@) == str_views(items@),
{
    let mut out: Vec<String> = Vec::new();
    let mut i: usize = 0;
    while i < items.len()
        invariant
            i <= items@.len(),
            views(out@) == str_views(items@.subrange(0, i as int)),
        decreases items@.len() - i,
    {
        let ghost before = out@;
        out.push(String::from_str(items[i]));
        proof {
            assert(items@.subrange(0, i as int + 1) =~= items@.subrange(0, i as int).push(items@[i as int]));
            assert(views(out@) =~= views(before).push(items@[i as int]@));
        }
        i = i + 1;
    }
    assert(items@.subrange(0, i as int) =~= items@);
    out
}

} // verus!
