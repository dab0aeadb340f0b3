//! Menu paths: the titles from the top-level menu down to an entry, joined
//! with `/`.

use vstd::prelude::*;
use crate::text::chars_of;

verus! {

/// The separator between the titles of a menu path.
pub open spec fn separator() -> char {
    '/'
}

/// The segments of `s` between the separators, as `str::split('/')` yields them:
/// a string with `n` separators has `n + 1` segments, empty ones included.
pub open spec fn path_segments(s: Seq<char>) -> Seq<Seq<char>>
    decreases s.len(),
{
    if s.len() == 0 {
        seq![Seq::<char>::empty()]
    } else {
        let init = path_segments(s.drop_last());
        if s.last() == separator() {
            init.push(Seq::<char>::empty())
        } else {
            init.update(init.len() - 1, init.last().push(s.last()))
        }
    }
}

/// The views of a sequence of character vectors.
pub open spec fn segment_views(v: Seq<Vec<char>>) -> Seq<Seq<char>> {
    v.map_values(|x: Vec<char>| x@)
}

/// Every path has at least one segment.
pub proof fn lemma_segments_nonempty(s: Seq<char>)
    ensures
        path_segments(s).len() >= 1,
    decreases s.len(),
{
    if s.len() > 0 {
        lemma_segments_nonempty(s.drop_last());
    }
}

/// The segments joined again, with a separator between each two.
pub open spec fn join_segments(segs: Seq<Seq<char>>) -> Seq<char>
    decreases segs.len(),
{
    if segs.len() == 0 {
        Seq::<char>::empty()
    } else if segs.len() == 1 {
        segs[0]
    } else {
        join_segments(segs.drop_last()) + seq![separator()] + segs.last()
    }
}

/// `s` holds no separator.
pub open spec fn no_separator(s: Seq<char>) -> bool {
    forall|i: int| 0 <= i < s.len() ==> #[trigger] s[i] != separator()
}

/// Splitting loses nothing: the segments of a path hold no separator, and
/// joining them gives the path back.
pub proof fn law_split_then_join(s: Seq<char>)
    ensures
        path_segments(s).len() >= 1,
        forall|k: int| 0 <= k < path_segments(s).len() ==> no_separator(#[trigger] path_segments(s)[k]),
        join_segments(path_segments(s)) == s,
    decreases s.len(),
{
    if s.len() > 0 {
        let init = s.drop_last();
        law_split_then_join(init);
        let p = path_segments(init);
        let segs = path_segments(s);
        if s.last() == separator() {
            assert(segs.drop_last() =~= p);
            assert(join_segments(segs) =~= s);
        } else {
            let last = p.last().push(s.last());
            assert(no_separator(last));
            if p.len() == 1 {
                assert(join_segments(segs) =~= s);
            } else {
                assert(segs.drop_last() =~= p.drop_last());
                assert(join_segments(p) == join_segments(p.drop_last()) + seq![separator()] + p.last());
                assert(segs.last() == last);
                assert(join_segments(segs) == join_segments(p.drop_last()) + seq![separator()] + last);
                assert(s =~= init.push(s.last()));
                assert(init.push(s.last()) =~= join_segments(p.drop_last()) + seq![separator()] + last);
            }
        }
    }
}

/// A piece with no separator is one segment.
pub proof fn lemma_single_segment(y: Seq<char>)
    requires
        no_separator(y),
    ensures
        path_segments(y) == seq![y],
    decreases y.len(),
{
    if y.len() > 0 {
        lemma_single_segment(y.drop_last());
        assert(y.drop_last().push(y.last()) =~= y);
        assert(y[y.len() - 1] != separator());
        let init = path_segments(y.drop_last());
        assert(init.update(init.len() - 1, init.last().push(y.last())) =~= seq![y]);
    } else {
        assert(y =~= Seq::<char>::empty());
    }
}

/// A separator followed by a piece with no separator adds that piece as one more segment.
pub proof fn lemma_segments_append(x: Seq<char>, y: Seq<char>)
    requires
        no_separator(y),
    ensures
        path_segments(x + seq![separator()] + y) == path_segments(x).push(y),
    decreases y.len(),
{
    let s = x + seq![separator()] + y;
    if y.len() == 0 {
        assert(s.drop_last() =~= x);
        assert(s =~= x + seq![separator()]);
        assert(y =~= Seq::<char>::empty());
    } else {
        lemma_segments_append(x, y.drop_last());
        assert(s.drop_last() =~= x + seq![separator()] + y.drop_last());
        assert(y[y.len() - 1] != separator());
        assert(y.drop_last().push(y.last()) =~= y);
        lemma_segments_nonempty(x);
        let init = path_segments(x).push(y.drop_last());
        assert(init.last() == y.drop_last());
        assert(init.update(init.len() - 1, init.last().push(y.last())) =~= path_segments(x).push(y));
        assert(s.last() == y.last());
    }
}

/// Joining loses nothing: segments with no separator, at least one, are what
/// splitting their join gives back.
pub proof fn law_join_then_split(segs: Seq<Seq<char>>)
    requires
        segs.len() >= 1,
        forall|k: int| 0 <= k < segs.len() ==> no_separator(#[trigger] segs[k]),
    ensures
        path_segments(join_segments(segs)) == segs,
    decreases segs.len(),
{
    if segs.len() == 1 {
        lemma_single_segment(segs[0]);
        assert(seq![segs[0]] =~= segs);
    } else {
        let init = segs.drop_last();
        assert(forall|k: int| 0 <= k < init.len() ==> #[trigger] init[k] == segs[k]);
        law_join_then_split(init);
        assert(no_separator(segs[segs.len() - 1]));
        lemma_segments_append(join_segments(init), segs.last());
        assert(init.push(segs.last()) =~= segs);
    }
}

/// Joining two lists of segments puts one separator between their joins.
pub proof fn lemma_join_concat(a: Seq<Seq<char>>, b: Seq<Seq<char>>)
    requires
        a.len() >= 1,
        b.len() >= 1,
    ensures
        join_segments(a + b) == join_segments(a) + seq![separator()] + join_segments(b),
    decreases b.len(),
{
    if b.len() == 1 {
        assert((a + b).drop_last() =~= a);
    } else {
        lemma_join_concat(a, b.drop_last());
        assert((a + b).drop_last() =~= a + b.drop_last());
        assert(join_segments(a + b) =~= join_segments(a) + seq![separator()] + join_segments(b));
    }
}

/// The path of an entry below another splits into the segments of both.
pub proof fn law_split_at_separator(a: Seq<char>, b: Seq<char>)
    ensures
        path_segments(a + seq![separator()] + b) == path_segments(a) + path_segments(b),
{
    law_split_then_join(a);
    law_split_then_join(b);
    let sa = path_segments(a);
    let sb = path_segments(b);
    lemma_join_concat(sa, sb);
    assert forall|k: int| 0 <= k < (sa + sb).len() implies no_separator(#[trigger] (sa + sb)[k]) by {
        if k < sa.len() {
            assert((sa + sb)[k] == sa[k]);
        } else {
            assert((sa + sb)[k] == sb[k - sa.len()]);
        }
    }
    law_join_then_split(sa + sb);
}

/// `e` lies strictly below `p`: it starts with `p` and a separator.
pub open spec fn lies_below(p: Seq<char>, e: Seq<char>) -> bool {
    &&& p.len() < e.len()
    &&& e[p.len() as int] == separator()
    &&& e.take(p.len() as int) == p
}

/// The segments `a` begin the segments `b`.
pub open spec fn segments_prefix(a: Seq<Seq<char>>, b: Seq<Seq<char>>) -> bool {
    a.len() <= b.len() && b.take(a.len() as int) == a
}

/// A path is the path `e` or lies below it exactly when its titles, taken
/// one by one, begin the titles of `e`: being an ancestor is a matter of
/// whole titles, not of characters.
pub proof fn law_below_is_title_prefix(p: Seq<char>, e: Seq<char>)
    ensures
        (p == e || lies_below(p, e)) <==> segments_prefix(path_segments(p), path_segments(e)),
{
    let a = path_segments(p);
    let b = path_segments(e);
    law_split_then_join(p);
    law_split_then_join(e);
    if p == e {
        assert(b.take(a.len() as int) =~= a);
    } else if lies_below(p, e) {
        let r = e.skip(p.len() as int + 1);
        assert(e =~= p + seq![separator()] + r);
        law_split_at_separator(p, r);
        assert(b.take(a.len() as int) =~= a);
    }
    if segments_prefix(a, b) {
        let rest = b.skip(a.len() as int);
        assert(b =~= a + rest);
        if rest.len() == 0 {
            assert(b =~= a);
        } else {
            lemma_join_concat(a, rest);
            let j = join_segments(rest);
            assert(e == p + seq![separator()] + j);
            assert(e.take(p.len() as int) =~= p);
            assert(e[p.len() as int] == separator());
        }
    }
}

/// Whether `p` is `e` or lies below it.
pub fn at_or_below(p: &Vec<char>, e: &Vec<char>) -> (res: bool)
    ensures
        res == (p@ == e@ || lies_below(p@, e@)),
{
    if p.len() > e.len() {
        return false;
    }
    for i in 0..p.len()
        invariant
            p.len() <= e.len(),
            forall|j: int| 0 <= j < i ==> p@[j] == e@[j],
    {
        if p[i] != e[i] {
            assert(p@ != e@);
            assert(e@.take(p.len() as int)[i as int] != p@[i as int]);
            return false;
        }
    }
    assert(e@.take(p.len() as int) =~= p@);
    if p.len() == e.len() {
        assert(p@ =~= e@);
        true
    } else {
        e[p.len()] == '/'
    }
}

/// Splits a menu path at every `/`.
pub fn split_path(path: &str) -> (segs: Vec<Vec<char>>)
    ensures
        segment_views(segs@) == path_segments(path@),
{
    let cs = chars_of(path);
    let mut done: Vec<Vec<char>> = Vec::new();
    let mut cur: Vec<char> = Vec::new();
    assert(cs@.take(0) =~= Seq::<char>::empty());
    assert(segment_views(done@).push(cur@) =~= path_segments(cs@.take(0)));
    for i in 0..cs.len()
        invariant
            segment_views(done@).push(cur@) == path_segments(cs@.take(i as int)),
    {
        let c = cs[i];
        proof {
            lemma_segments_nonempty(cs@.take(i as int));
            assert(cs@.take(i + 1).drop_last() =~= cs@.take(i as int));
        }
        if c == '/' {
            let ghost before = segment_views(done@).push(cur@);
            done.push(cur);
            cur = Vec::new();
            assert(segment_views(done@).push(cur@) =~= before.push(Seq::<char>::empty()));
        } else {
            let ghost before = segment_views(done@).push(cur@);
            cur.push(c);
            assert(segment_views(done@).push(cur@) =~= before.update(
                before.len() - 1,
                before.last().push(c),
            ));
        }
    }
    assert(cs@.take(cs.len() as int) =~= cs@);
    let ghost fin = segment_views(done@).push(cur@);
    done.push(cur);
    assert(segment_views(done@) =~= fin);
    done
}

} // verus!
