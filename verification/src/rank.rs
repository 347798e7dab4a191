use vstd::prelude::*;

use crate::approx::at_dist;
use crate::approx::deref_seq;
use crate::approx::lemma_at_dist_push;
use crate::catalog::ColourMap;
use crate::colour::Colour;
use crate::colour::Rgb;
use crate::colour::dist;

verus! {

/// Distances to `rgb` never decrease along `s`.
pub open spec fn sorted_by_dist(s: Seq<Colour>, rgb: Rgb) -> bool {
    forall|i: int, j: int|
        0 <= i <= j < s.len() ==> dist(#[trigger] s[i].rgb(), rgb) <= dist(
            #[trigger] s[j].rgb(),
            rgb,
        )
}

/// Insertion of `x` into `t`, placed after every element whose distance to
/// `rgb` does not exceed that of `x`. On a sorted `t` this is the stable
/// insertion step: equal distances keep the earlier element first.
pub open spec fn insert_by_dist(t: Seq<Colour>, x: Colour, rgb: Rgb) -> Seq<Colour>
    decreases t.len(),
{
    if t.len() == 0 {
        seq![x]
    } else if dist(t.last().rgb(), rgb) <= dist(x.rgb(), rgb) {
        t.push(x)
    } else {
        insert_by_dist(t.drop_last(), x, rgb).push(t.last())
    }
}

/// The catalog ranked by ascending distance to `rgb`: a stable insertion
/// sort of the entry sequence, processed in catalog order.
pub open spec fn rank_spec(s: Seq<Colour>, rgb: Rgb) -> Seq<Colour>
    decreases s.len(),
{
    if s.len() == 0 {
        Seq::empty()
    } else {
        insert_by_dist(rank_spec(s.drop_last(), rgb), s.last(), rgb)
    }
}

/// Inserting at the cut found by scanning from the right — past every
/// element strictly farther than `x` — is exactly `insert_by_dist`.
proof fn lemma_insert_by_dist_shape(t: Seq<Colour>, x: Colour, rgb: Rgb, p: int)
    requires
        0 <= p <= t.len(),
        forall|j: int| p <= j < t.len() ==> dist(#[trigger] t[j].rgb(), rgb) > dist(x.rgb(), rgb),
        p > 0 ==> dist(t[p - 1].rgb(), rgb) <= dist(x.rgb(), rgb),
    ensures
        insert_by_dist(t, x, rgb) == t.insert(p, x),
    decreases t.len(),
{
    if t.len() == 0 {
        assert(insert_by_dist(t, x, rgb) =~= t.insert(0, x));
    } else if p == t.len() {
        assert(insert_by_dist(t, x, rgb) =~= t.insert(p, x));
    } else {
        assert(dist(t.last().rgb(), rgb) > dist(x.rgb(), rgb));
        lemma_insert_by_dist_shape(t.drop_last(), x, rgb, p);
        assert(insert_by_dist(t, x, rgb) == t.drop_last().insert(p, x).push(t.last()));
        assert(t.drop_last().insert(p, x).push(t.last()) =~= t.insert(p, x));
    }
}

/// Stable insertion adds exactly one element.
proof fn lemma_insert_by_dist_len(t: Seq<Colour>, x: Colour, rgb: Rgb)
    ensures
        insert_by_dist(t, x, rgb).len() == t.len() + 1,
    decreases t.len(),
{
    if t.len() == 0 {
    } else if dist(t.last().rgb(), rgb) <= dist(x.rgb(), rgb) {
    } else {
        lemma_insert_by_dist_len(t.drop_last(), x, rgb);
    }
}

/// Stable insertion keeps a sorted sequence sorted and adds one element.
proof fn lemma_insert_by_dist_sorted(t: Seq<Colour>, x: Colour, rgb: Rgb)
    requires
        sorted_by_dist(t, rgb),
    ensures
        insert_by_dist(t, x, rgb).len() == t.len() + 1,
        sorted_by_dist(insert_by_dist(t, x, rgb), rgb),
    decreases t.len(),
{
    if t.len() == 0 {
    } else if dist(t.last().rgb(), rgb) <= dist(x.rgb(), rgb) {
    } else {
        assert(sorted_by_dist(t.drop_last(), rgb));
        lemma_insert_by_dist_sorted(t.drop_last(), x, rgb);
        let r = insert_by_dist(t.drop_last(), x, rgb).push(t.last());
        assert forall|i: int, j: int| 0 <= i <= j < r.len() implies dist(
            #[trigger] r[i].rgb(),
            rgb,
        ) <= dist(#[trigger] r[j].rgb(), rgb) by {
            let inner = insert_by_dist(t.drop_last(), x, rgb);
            if j < r.len() - 1 {
                assert(r[i] == inner[i] && r[j] == inner[j]);
            } else if i < r.len() - 1 {
                assert(r[i] == inner[i]);
                lemma_insert_by_dist_le(t.drop_last(), x, rgb, i);
            }
        }
    }
}

/// Every element of a stable insertion is either `x` or an element of `t`;
/// in particular its distance is bounded by the largest of theirs.
proof fn lemma_insert_by_dist_le(t: Seq<Colour>, x: Colour, rgb: Rgb, i: int)
    requires
        sorted_by_dist(t, rgb),
        0 <= i < t.len() + 1,
    ensures
        dist(insert_by_dist(t, x, rgb)[i].rgb(), rgb) <= if t.len() == 0 {
            dist(x.rgb(), rgb)
        } else if dist(t.last().rgb(), rgb) >= dist(x.rgb(), rgb) {
            dist(t.last().rgb(), rgb)
        } else {
            dist(x.rgb(), rgb)
        },
    decreases t.len(),
{
    if t.len() == 0 {
        assert(insert_by_dist(t, x, rgb)[0] == x);
    } else if dist(t.last().rgb(), rgb) <= dist(x.rgb(), rgb) {
        if i < t.len() {
            assert(insert_by_dist(t, x, rgb)[i] == t[i]);
            assert(dist(t[i].rgb(), rgb) <= dist(t[t.len() - 1].rgb(), rgb));
        } else {
            assert(insert_by_dist(t, x, rgb)[i] == x);
        }
    } else {
        lemma_insert_by_dist_len(t.drop_last(), x, rgb);
        if i < t.len() {
            assert(sorted_by_dist(t.drop_last(), rgb)) by {
                assert forall|a: int, b: int| 0 <= a <= b < t.len() - 1 implies dist(
                    #[trigger] t.drop_last()[a].rgb(),
                    rgb,
                ) <= dist(#[trigger] t.drop_last()[b].rgb(), rgb) by {
                    assert(t.drop_last()[a] == t[a] && t.drop_last()[b] == t[b]);
                }
            }
            lemma_insert_by_dist_le(t.drop_last(), x, rgb, i);
            assert(insert_by_dist(t, x, rgb)[i] == insert_by_dist(t.drop_last(), x, rgb)[i]);
            if t.len() >= 2 {
                assert(t.drop_last().last() == t[t.len() - 2]);
                assert(dist(t[t.len() - 2].rgb(), rgb) <= dist(t[t.len() - 1].rgb(), rgb));
            }
        } else {
            assert(insert_by_dist(t, x, rgb)[i] == t.last());
        }
    }
}

/// Stable insertion extends the distance class of `x` at its end and leaves
/// every other distance class unchanged.
proof fn lemma_insert_by_dist_at_dist(t: Seq<Colour>, x: Colour, rgb: Rgb, d: int)
    ensures
        at_dist(insert_by_dist(t, x, rgb), rgb, d) == if dist(x.rgb(), rgb) == d {
            at_dist(t, rgb, d).push(x)
        } else {
            at_dist(t, rgb, d)
        },
    decreases t.len(),
{
    reveal(Seq::filter);
    if t.len() == 0 {
        assert(Seq::<Colour>::empty().push(x) =~= seq![x]);
        lemma_at_dist_push(Seq::<Colour>::empty(), x, rgb, d);
        assert(at_dist(Seq::<Colour>::empty(), rgb, d) =~= Seq::<Colour>::empty());
    } else if dist(t.last().rgb(), rgb) <= dist(x.rgb(), rgb) {
        lemma_at_dist_push(t, x, rgb, d);
    } else {
        lemma_insert_by_dist_at_dist(t.drop_last(), x, rgb, d);
        lemma_at_dist_push(insert_by_dist(t.drop_last(), x, rgb), t.last(), rgb, d);
        lemma_at_dist_push(t.drop_last(), t.last(), rgb, d);
        assert(t.drop_last().push(t.last()) =~= t);
    }
}

/// The ranking is a reordering of the catalog: it has the same length, its
/// distances to the reference colour are non-decreasing, and, at every
/// distance, it lists exactly the catalog entries at that distance in
/// catalog order — so equal distances keep catalog order (a stable sort).
pub proof fn lemma_rank_spec(s: Seq<Colour>, rgb: Rgb)
    ensures
        rank_spec(s, rgb).len() == s.len(),
        sorted_by_dist(rank_spec(s, rgb), rgb),
        forall|d: int| at_dist(#[trigger] rank_spec(s, rgb), rgb, d) == at_dist(s, rgb, d),
    decreases s.len(),
{
    if s.len() > 0 {
        lemma_rank_spec(s.drop_last(), rgb);
        let r = rank_spec(s.drop_last(), rgb);
        lemma_insert_by_dist_sorted(r, s.last(), rgb);
        assert forall|d: int| at_dist(#[trigger] rank_spec(s, rgb), rgb, d) == at_dist(
            s,
            rgb,
            d,
        ) by {
            lemma_insert_by_dist_at_dist(r, s.last(), rgb, d);
            lemma_at_dist_push(s.drop_last(), s.last(), rgb, d);
            assert(s.drop_last().push(s.last()) =~= s);
        }
    }
}

impl ColourMap {
    /// Ranks the whole catalog by ascending Manhattan distance to `rgb`.
    /// Entries at equal distance keep their catalog order, so the ranking
    /// is a total, reproducible ordering: calling it again on the same
    /// catalog and colour yields the same sequence.
    pub fn rank_by_similarity<'a>(&'a self, rgb: Rgb) -> (r: Vec<&'a Colour>)
        requires
            self.wf(),
        ensures
            deref_seq(r@) == rank_spec(self.entries(), rgb),
            r@.len() == self.entries().len(),
            sorted_by_dist(deref_seq(r@), rgb),
    {
        let ghost s = self.entries();
        proof {
            self.entries_eq();
        }
        let n = self.colours.len();
        let mut out: Vec<&'a Colour> = Vec::new();
        proof {
            assert(s.take(0) =~= Seq::<Colour>::empty());
            assert(deref_seq(out@) =~= rank_spec(s.take(0), rgb));
        }
        let mut i: usize = 0;
        while i < n
            invariant
                n == s.len(),
                s == self.entries(),
                s == self.colours@,
                0 <= i <= n,
                out@.len() == i,
                deref_seq(out@) == rank_spec(s.take(i as int), rgb),
            decreases n - i,
        {
            let x = &self.colours[i];
            let dx = x.diff(rgb);
            let mut p: usize = out.len();
            while p > 0 && out[p - 1].diff(rgb) > dx
                invariant
                    0 <= p <= out@.len(),
                    out@.len() == i,
                    s == self.colours@,
                    n == s.len(),
                    i < n,
                    dx as int == dist(s[i as int].rgb(), rgb),
                    x == &self.colours[i as int],
                    forall|j: int|
                        p <= j < out@.len() ==> dist(
                            #[trigger] deref_seq(out@)[j].rgb(),
                            rgb,
                        ) > dx as int,
                decreases p,
            {
                p = p - 1;
            }
            let ghost old_out = out@;
            out.insert(p, x);
            proof {
                lemma_insert_by_dist_shape(deref_seq(old_out), s[i as int], rgb, p as int);
                assert(deref_seq(out@) =~= deref_seq(old_out).insert(p as int, s[i as int]));
                assert(s.take(i + 1).drop_last() =~= s.take(i as int));
                assert(s.take(i + 1).last() == s[i as int]);
            }
            i = i + 1;
        }
        proof {
            assert(s.take(n as int) =~= s);
            lemma_rank_spec(s, rgb);
        }
        out
    }
}

} // verus!
