use vstd::prelude::*;

use crate::catalog::ColourMap;
use crate::catalog::lemma_rgb_unique;
use crate::colour::Colour;
use crate::colour::Rgb;
use crate::colour::dist;

verus! {

/// What an RGB lookup found: either the single entry carrying exactly the
/// queried colour, or the non-empty list of entries nearest to it. The two
/// cases are distinct variants so that a caller can never mistake an
/// approximation for an exact hit.
pub enum RgbMatch<'c> {
    Exact(&'c Colour),
    Approx(Vec<&'c Colour>),
}

/// The smallest distance from `rgb` to any entry of `s`, or 766 — one more
/// than the largest possible distance — when `s` is empty.
pub open spec fn min_dist(s: Seq<Colour>, rgb: Rgb) -> int
    decreases s.len(),
{
    if s.len() == 0 {
        766
    } else {
        let rest = min_dist(s.drop_last(), rgb);
        let d = dist(s.last().rgb(), rgb);
        if d < rest {
            d
        } else {
            rest
        }
    }
}

/// The entries of `s` lying at exactly distance `d` from `rgb`, in the order
/// they stand in `s`.
pub open spec fn at_dist(s: Seq<Colour>, rgb: Rgb, d: int) -> Seq<Colour> {
    s.filter(|c: Colour| dist(c.rgb(), rgb) == d)
}

/// The entries of `s` nearest to `rgb`, in the order they stand in `s`.
pub open spec fn closest(s: Seq<Colour>, rgb: Rgb) -> Seq<Colour> {
    at_dist(s, rgb, min_dist(s, rgb))
}

/// The references of `s`, dereferenced.
pub open spec fn deref_seq(s: Seq<&Colour>) -> Seq<Colour> {
    Seq::new(s.len(), |i: int| *s[i])
}

/// The minimum distance is attained by some entry and bounds every entry's
/// distance from below.
pub proof fn lemma_min_dist(s: Seq<Colour>, rgb: Rgb)
    ensures
        s.len() > 0 ==> exists|i: int|
            0 <= i < s.len() && dist(#[trigger] s[i].rgb(), rgb) == min_dist(s, rgb),
        forall|i: int| 0 <= i < s.len() ==> dist(#[trigger] s[i].rgb(), rgb) >= min_dist(s, rgb),
        s.len() > 0 ==> 0 <= min_dist(s, rgb) <= 765,
    decreases s.len(),
{
    if s.len() > 0 {
        lemma_min_dist(s.drop_last(), rgb);
        let last = s.len() - 1;
        if dist(s.last().rgb(), rgb) <= min_dist(s.drop_last(), rgb) {
            assert(dist(s[last].rgb(), rgb) == min_dist(s, rgb));
        } else {
            let j = choose|j: int|
                0 <= j < s.drop_last().len() && dist(
                    #[trigger] s.drop_last()[j].rgb(),
                    rgb,
                ) == min_dist(s.drop_last(), rgb);
            assert(dist(s[j].rgb(), rgb) == min_dist(s, rgb));
        }
        assert forall|i: int| 0 <= i < s.len() implies dist(
            #[trigger] s[i].rgb(),
            rgb,
        ) >= min_dist(s, rgb) by {
            if i < last {
                assert(s.drop_last()[i] == s[i]);
            }
        }
    }
}

/// Appending one entry extends its distance class and leaves every other
/// distance class unchanged.
pub proof fn lemma_at_dist_push(s: Seq<Colour>, x: Colour, rgb: Rgb, d: int)
    ensures
        at_dist(s.push(x), rgb, d) == if dist(x.rgb(), rgb) == d {
            at_dist(s, rgb, d).push(x)
        } else {
            at_dist(s, rgb, d)
        },
{
    reveal(Seq::filter);
    assert(s.push(x).drop_last() =~= s);
    assert(s.push(x).last() == x);
    if dist(x.rgb(), rgb) == d {
        assert(at_dist(s.push(x), rgb, d) =~= at_dist(s, rgb, d).push(x));
    } else {
        assert(at_dist(s.push(x), rgb, d) =~= at_dist(s, rgb, d));
    }
}

/// On a non-empty catalog the nearest-entry list is never empty, each of its
/// entries lies at the minimum distance, and no entry of the catalog lies
/// nearer.
pub proof fn lemma_closest(s: Seq<Colour>, rgb: Rgb)
    requires
        s.len() > 0,
    ensures
        closest(s, rgb).len() > 0,
        forall|k: int|
            0 <= k < closest(s, rgb).len() ==> dist(
                #[trigger] closest(s, rgb)[k].rgb(),
                rgb,
            ) == min_dist(s, rgb),
        forall|i: int| 0 <= i < s.len() ==> dist(#[trigger] s[i].rgb(), rgb) >= min_dist(s, rgb),
    decreases s.len(),
{
    lemma_min_dist(s, rgb);
    let m = min_dist(s, rgb);
    let pred = |c: Colour| dist(c.rgb(), rgb) == m;
    let w = choose|i: int| 0 <= i < s.len() && dist(#[trigger] s[i].rgb(), rgb) == m;
    s.lemma_filter_contains(pred, w);
    assert(closest(s, rgb).contains(s[w]));
    assert forall|k: int| 0 <= k < closest(s, rgb).len() implies dist(
        #[trigger] closest(s, rgb)[k].rgb(),
        rgb,
    ) == m by {
        s.lemma_filter_pred(pred, k);
    }
}

impl ColourMap {
    /// Looks a colour up by its exact triplet. When some entry carries
    /// exactly that colour the result is `Exact` with that entry; otherwise
    /// it is `Approx` with every entry at minimal Manhattan distance from
    /// the query, in catalog order. On a well-formed catalog this never
    /// fails: the approximate list is non-empty.
    pub fn lookup_rgb<'a>(&'a self, rgb: Rgb) -> (r: RgbMatch<'a>)
        requires
            self.wf(),
        ensures
            match r {
                RgbMatch::Exact(c) => exists|i: int|
                    0 <= i < self.entries().len() && #[trigger] self.entries()[i].rgb() == rgb
                        && *c == self.entries()[i],
                RgbMatch::Approx(cs) => {
                    &&& forall|i: int|
                        0 <= i < self.entries().len() ==> #[trigger] self.entries()[i].rgb() != rgb
                    &&& deref_seq(cs@) == closest(self.entries(), rgb)
                    &&& cs@.len() > 0
                },
            },
    {
        let ghost s = self.entries();
        proof {
            self.entries_eq();
        }
        let n = self.colours.len();
        let mut i: usize = 0;
        while i < n
            invariant
                n == s.len(),
                s == self.entries(),
                s == self.colours@,
                0 <= i <= n,
                forall|j: int| 0 <= j < i ==> #[trigger] s[j].rgb() != rgb,
            decreases n - i,
        {
            let c = &self.colours[i];
            if c.r == rgb.r && c.g == rgb.g && c.b == rgb.b {
                assert(s[i as int].rgb() == rgb);
                return RgbMatch::Exact(c);
            }
            i = i + 1;
        }
        // No exact match: find the minimum distance, then collect its class.
        let mut md: u16 = 766;
        let mut i: usize = 0;
        while i < n
            invariant
                n == s.len(),
                s == self.entries(),
                s == self.colours@,
                0 <= i <= n,
                md as int == min_dist(s.take(i as int), rgb),
            decreases n - i,
        {
            let d = self.colours[i].diff(rgb);
            proof {
                assert(s.take(i + 1).drop_last() =~= s.take(i as int));
                assert(s.take(i + 1).last() == s[i as int]);
            }
            if d < md {
                md = d;
            }
            i = i + 1;
        }
        proof {
            assert(s.take(n as int) =~= s);
        }
        let ghost m = min_dist(s, rgb);
        let mut out: Vec<&'a Colour> = Vec::new();
        proof {
            reveal(Seq::filter);
            assert(s.take(0) =~= Seq::<Colour>::empty());
            assert(deref_seq(out@) =~= at_dist(s.take(0), rgb, m));
        }
        let mut i: usize = 0;
        while i < n
            invariant
                n == s.len(),
                s == self.entries(),
                s == self.colours@,
                0 <= i <= n,
                md as int == m,
                m == min_dist(s, rgb),
                deref_seq(out@) == at_dist(s.take(i as int), rgb, m),
            decreases n - i,
        {
            let d = self.colours[i].diff(rgb);
            proof {
                assert(s.take(i + 1) =~= s.take(i as int).push(s[i as int]));
                lemma_at_dist_push(s.take(i as int), s[i as int], rgb, m);
            }
            if d == md {
                out.push(&self.colours[i]);
                proof {
                    assert(deref_seq(out@) =~= at_dist(s.take(i as int), rgb, m).push(
                        s[i as int],
                    ));
                }
            }
            i = i + 1;
        }
        proof {
            assert(s.take(n as int) =~= s);
            lemma_closest(s, rgb);
            assert(out@.len() == deref_seq(out@).len());
        }
        RgbMatch::Approx(out)
    }
}

} // verus!
