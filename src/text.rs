//! The character-level model of templates: placeholder counting, splitting a
//! template at its placeholders and weaving pieces back together.
use vstd::prelude::*;

verus! {

/// The generic bind marker of every template.
pub open spec fn marker() -> char {
    '?'
}

/// How many times `c` occurs in `s`.
pub open spec fn count_char(s: Seq<char>, c: char) -> nat
    decreases s.len(),
{
    if s.len() == 0 {
        0
    } else {
        count_char(s.drop_last(), c) + if s.last() == c {
            1nat
        } else {
            0nat
        }
    }
}

/// How many placeholders the template `s` holds.
pub open spec fn placeholders(s: Seq<char>) -> nat {
    count_char(s, marker())
}

/// The literal pieces of `s` between its placeholders, left to right: what
/// `str::split` on the marker yields.
pub open spec fn segments(s: Seq<char>) -> Seq<Seq<char>>
    decreases s.len(),
{
    if s.len() == 0 {
        seq![Seq::empty()]
    } else {
        let prev = segments(s.drop_last());
        if s.last() == marker() {
            prev.push(Seq::empty())
        } else {
            prev.update(prev.len() - 1, prev.last().push(s.last()))
        }
    }
}

/// The views of a sequence of strings.
pub open spec fn views(v: Seq<String>) -> Seq<Seq<char>> {
    v.map_values(|x: String| x@)
}

/// The views of a sequence of string slices.
pub open spec fn str_views(v: Seq<&str>) -> Seq<Seq<char>> {
    v.map_values(|x: &str| x@)
}

/// The `k`-th element of `xs`, or nothing where `xs` has none.
pub open spec fn piece(xs: Seq<Seq<char>>, k: int) -> Seq<char> {
    if 0 <= k < xs.len() {
        xs[k]
    } else {
        Seq::empty()
    }
}

/// The first `n` rounds of weaving: segment 0, fill 0, segment 1, fill 1, ...
pub open spec fn weave_upto(segs: Seq<Seq<char>>, fills: Seq<Seq<char>>, n: nat) -> Seq<char>
    decreases n,
{
    if n == 0 {
        Seq::empty()
    } else {
        weave_upto(segs, fills, (n - 1) as nat) + piece(segs, n - 1) + piece(fills, n - 1)
    }
}

/// Literal segments and fills taken in turn, starting with a segment, until
/// both are used up.
pub open spec fn weave(segs: Seq<Seq<char>>, fills: Seq<Seq<char>>) -> Seq<char> {
    weave_upto(segs, fills, if segs.len() >= fills.len() { segs.len() } else { fills.len() })
}

/// `cols` joined by `sep`.
pub open spec fn joined(cols: Seq<Seq<char>>, sep: Seq<char>) -> Seq<char>
    decreases cols.len(),
{
    if cols.len() == 0 {
        Seq::empty()
    } else if cols.len() == 1 {
        cols[0]
    } else {
        joined(cols.drop_last(), sep) + sep + cols.last()
    }
}

/// The separator of column lists.
pub open spec fn comma() -> Seq<char> {
    seq![',', ' ']
}

/// Joining one more item appends the separator and the item, but for the
/// first item.
pub proof fn lemma_joined_push(cols: Seq<Seq<char>>, x: Seq<char>, sep: Seq<char>)
    ensures
        joined(cols.push(x), sep) == if cols.len() == 0 {
            x
        } else {
            joined(cols, sep) + sep + x
        },
{
    assert(cols.push(x).drop_last() =~= cols);
}

/// A template splits into one more segment than it has placeholders.
pub proof fn lemma_segments_len(s: Seq<char>)
    ensures
        segments(s).len() == placeholders(s) + 1,
    decreases s.len(),
{
    if s.len() > 0 {
        lemma_segments_len(s.drop_last());
    }
}

/// Counting distributes over concatenation.
pub proof fn lemma_count_concat(a: Seq<char>, b: Seq<char>, c: char)
    ensures
        count_char(a + b, c) == count_char(a, c) + count_char(b, c),
    decreases b.len(),
{
    if b.len() == 0 {
        assert(a + b =~= a);
    } else {
        lemma_count_concat(a, b.drop_last(), c);
        assert((a + b).drop_last() =~= a + b.drop_last());
    }
}

/// How many placeholders the first `n` fills bring together.
pub open spec fn fill_placeholders(fills: Seq<Seq<char>>, n: nat) -> nat
    decreases n,
{
    if n == 0 {
        0
    } else {
        fill_placeholders(fills, (n - 1) as nat) + placeholders(piece(fills, n - 1))
    }
}

/// No segment of a template holds a placeholder.
pub proof fn lemma_segments_plain(s: Seq<char>)
    ensures
        forall|i: int| 0 <= i < segments(s).len() ==> placeholders(#[trigger] segments(s)[i]) == 0,
    decreases s.len(),
{
    if s.len() > 0 {
        lemma_segments_plain(s.drop_last());
        lemma_segments_len(s.drop_last());
        let prev = segments(s.drop_last());
        if s.last() != marker() {
            let l = prev.last();
            assert(l.push(s.last()).drop_last() =~= l);
        }
    }
    reveal_with_fuel(count_char, 2);
}

/// Weaving segments without placeholders keeps exactly the placeholders of
/// the fills.
proof fn lemma_weave_upto_placeholders(segs: Seq<Seq<char>>, fills: Seq<Seq<char>>, n: nat)
    requires
        forall|i: int| 0 <= i < segs.len() ==> placeholders(#[trigger] segs[i]) == 0,
    ensures
        placeholders(weave_upto(segs, fills, n)) == fill_placeholders(fills, n),
    decreases n,
{
    reveal_with_fuel(count_char, 1);
    if n > 0 {
        lemma_weave_upto_placeholders(segs, fills, (n - 1) as nat);
        let w = weave_upto(segs, fills, (n - 1) as nat);
        lemma_count_concat(w, piece(segs, n - 1), marker());
        lemma_count_concat(w + piece(segs, n - 1), piece(fills, n - 1), marker());
        assert(placeholders(Seq::<char>::empty()) == 0);
    }
}

/// Substituting fills for the placeholders of a template: the result holds
/// exactly the placeholders that the fills bring, as the template's literal
/// segments hold none.
pub proof fn law_substitution_placeholders(tpl: Seq<char>, fills: Seq<Seq<char>>)
    requires
        placeholders(tpl) == fills.len(),
    ensures
        placeholders(weave(segments(tpl), fills)) == fill_placeholders(fills, fills.len()),
{
    lemma_segments_len(tpl);
    lemma_segments_plain(tpl);
    let segs = segments(tpl);
    lemma_weave_upto_placeholders(segs, fills, segs.len());
    assert(placeholders(piece(fills, fills.len() as int)) == 0);
}

/// A text without the marker holds no placeholder.
pub proof fn lemma_no_marker(s: Seq<char>)
    requires
        forall|i: int| 0 <= i < s.len() ==> s[i] != marker(),
    ensures
        placeholders(s) == 0,
    decreases s.len(),
{
    if s.len() > 0 {
        lemma_no_marker(s.drop_last());
    }
}

/// Joining placeholder-free items with a placeholder-free separator gives a
/// placeholder-free text.
pub proof fn lemma_joined_plain(cols: Seq<Seq<char>>, sep: Seq<char>)
    requires
        placeholders(sep) == 0,
        forall|i: int| 0 <= i < cols.len() ==> placeholders(#[trigger] cols[i]) == 0,
    ensures
        placeholders(joined(cols, sep)) == 0,
    decreases cols.len(),
{
    if cols.len() > 1 {
        lemma_joined_plain(cols.drop_last(), sep);
        lemma_count_concat(joined(cols.drop_last(), sep), sep, marker());
        lemma_count_concat(joined(cols.drop_last(), sep) + sep, cols.last(), marker());
    } else if cols.len() == 0 {
        reveal_with_fuel(count_char, 1);
    }
}

/// Removing leading white space keeps every placeholder.
proof fn lemma_trim_start_placeholders(s: Seq<char>)
    ensures
        placeholders(trim_start(s)) == placeholders(s),
    decreases s.len(),
{
    if s.len() > 0 && is_white_space(s[0]) {
        lemma_trim_start_placeholders(s.drop_first());
        assert(s =~= seq![s[0]] + s.drop_first());
        lemma_count_concat(seq![s[0]], s.drop_first(), marker());
        reveal_with_fuel(count_char, 2);
        assert(seq![s[0]].drop_last() =~= Seq::<char>::empty());
    }
}

/// Removing trailing white space keeps every placeholder.
proof fn lemma_trim_end_placeholders(s: Seq<char>)
    ensures
        placeholders(trim_end(s)) == placeholders(s),
    decreases s.len(),
{
    if s.len() > 0 && is_white_space(s.last()) {
        lemma_trim_end_placeholders(s.drop_last());
    }
}

/// Trimming keeps every placeholder: the marker is no white space.
pub proof fn lemma_trimmed_placeholders(s: Seq<char>)
    ensures
        placeholders(trimmed(s)) == placeholders(s),
{
    lemma_trim_start_placeholders(s);
    lemma_trim_end_placeholders(trim_start(s));
}

/// Counts the placeholders of `s`.
pub fn count_placeholders(s: &str) -> (n: usize)
    ensures
        n == placeholders(s@),
{
    let len = s.unicode_len();
    let mut n: usize = 0;
    let mut i: usize = 0;
    while i < len
        invariant
            len == s@.len(),
            i <= len,
            n == placeholders(s@.subrange(0, i as int)),
            n <= i,
        decreases len - i,
    {
        assert(s@.subrange(0, i as int + 1).drop_last() =~= s@.subrange(0, i as int));
        if s.get_char(i) == '?' {
            n = n + 1;
        }
        i = i + 1;
    }
    assert(s@.subrange(0, len as int) =~= s@);
    n
}

/// Splits `s` at each placeholder into its literal segments.
pub fn split_placeholders(s: &str) -> (r: Vec<String>)
    ensures
        views(r@) == segments(s@),
{
    let len = s.unicode_len();
    let mut segs: Vec<String> = Vec::new();
    let mut start: usize = 0;
    let mut i: usize = 0;
    assert(s@.subrange(0, 0) =~= Seq::<char>::empty());
    assert(views(segs@).push(s@.subrange(0, 0)) =~= seq![Seq::<char>::empty()]);
    while i < len
        invariant
            len == s@.len(),
            start <= i <= len,
            segments(s@.subrange(0, i as int)) == views(segs@).push(s@.subrange(start as int, i as int)),
        decreases len - i,
    {
        let ghost pre = s@.subrange(0, i as int + 1);
        assert(pre.drop_last() =~= s@.subrange(0, i as int));
        assert(pre.last() == s@[i as int]);
        if s.get_char(i) == '?' {
            let seg = String::from_str(s.substring_char(start, i));
            let ghost before = segs@;
            segs.push(seg);
            assert(s@.subrange(i as int + 1, i as int + 1) =~= Seq::<char>::empty());
            assert(views(segs@) =~= views(before).push(seg@)) by {
                assert(views(segs@).len() == views(before).len() + 1);
            }
            start = i + 1;
        } else {
            assert(s@.subrange(start as int, i as int + 1) =~= s@.subrange(start as int, i as int).push(s@[i as int]));
        }
        i = i + 1;
        assert(segments(s@.subrange(0, i as int)) =~= views(segs@).push(s@.subrange(start as int, i as int)));
    }
    let last = String::from_str(s.substring_char(start, len));
    let ghost before = segs@;
    segs.push(last);
    assert(s@.subrange(0, len as int) =~= s@);
    assert(views(segs@) =~= views(before).push(last@));
    segs
}

/// Unicode's `White_Space` property.
pub open spec fn is_white_space(c: char) -> bool {
    let n = c as u32;
    (9 <= n <= 13) || n == 32 || n == 0x85 || n == 0xa0 || n == 0x1680 || (0x2000 <= n <= 0x200a)
        || n == 0x2028 || n == 0x2029 || n == 0x202f || n == 0x205f || n == 0x3000
}

/// `s` without its leading white space.
pub open spec fn trim_start(s: Seq<char>) -> Seq<char>
    decreases s.len(),
{
    if s.len() > 0 && is_white_space(s[0]) {
        trim_start(s.drop_first())
    } else {
        s
    }
}

/// `s` without its trailing white space.
pub open spec fn trim_end(s: Seq<char>) -> Seq<char>
    decreases s.len(),
{
    if s.len() > 0 && is_white_space(s.last()) {
        trim_end(s.drop_last())
    } else {
        s
    }
}

/// `s` without its leading and trailing white space.
pub open spec fn trimmed(s: Seq<char>) -> Seq<char> {
    trim_end(trim_start(s))
}

/// Relies on `str::trim`: the slice without leading and trailing white space,
/// white space being what Unicode's `White_Space` property names.
#[verifier::external_body]
pub(crate) fn trim_str(s: &str) -> (r: &str)
    ensures
        r@ == trimmed(s@),
{
    s.trim()
}

} // verus!
