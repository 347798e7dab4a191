use vstd::prelude::*;

use crate::colour::Colour;
use crate::colour::Rgb;
use crate::colour::dist;
use crate::text::eq_ignore_case;
use crate::text::lower_seq;

verus! {

/// Everything that can go wrong in the library: the construction-time
/// failures, the one lookup failure, and the hex-parsing failure.
#[derive(Clone, Copy, PartialEq, Eq, Structural, Debug)]
pub enum Error {
    /// The catalog builder handed over no entries at all.
    EmptyCatalog,
    /// Two entries share a floss code after case-normalization.
    DuplicateFlossCode,
    /// Two entries share an exact RGB triplet. Duplicate colours are treated
    /// as a data-quality fault and rejected at construction, so an exact RGB
    /// lookup always has a single owner.
    DuplicateRgb,
    /// A queried floss code matches no catalog entry.
    UnknownFlossCode,
    /// A colour string is not six hex digits after an optional `#`.
    InvalidHexFormat,
}

impl Error {
    /// A user-facing message for each failure.
    pub fn message(&self) -> (r: &'static str)
        ensures
            *self == Error::EmptyCatalog ==> r@ == "empty catalog"@,
            *self == Error::DuplicateFlossCode ==> r@ == "duplicate floss code"@,
            *self == Error::DuplicateRgb ==> r@ == "duplicate colour"@,
            *self == Error::UnknownFlossCode ==> r@ == "invalid floss"@,
            *self == Error::InvalidHexFormat ==> r@ == "invalid hex colour"@,
    {
        match self {
            Error::EmptyCatalog => "empty catalog",
            Error::DuplicateFlossCode => "duplicate floss code",
            Error::DuplicateRgb => "duplicate colour",
            Error::UnknownFlossCode => "invalid floss",
            Error::InvalidHexFormat => "invalid hex colour",
        }
    }
}

/// The normalized form under which an entry's floss code is matched.
pub open spec fn floss_key(c: Colour) -> Seq<char> {
    lower_seq(c.floss@)
}

/// Two entries somewhere in the sequence share a normalized floss code.
pub open spec fn has_dup_floss(s: Seq<Colour>) -> bool {
    exists|i: int, j: int|
        0 <= i < j < s.len() && floss_key(s[i]) == floss_key(s[j])
}

/// Two entries somewhere in the sequence share an exact colour.
pub open spec fn has_dup_rgb(s: Seq<Colour>) -> bool {
    exists|i: int, j: int| 0 <= i < j < s.len() && s[i].rgb() == s[j].rgb()
}

/// The immutable colour catalog: an ordered sequence of entries whose order
/// is the insertion order of the data source. Lookups scan the entry list;
/// the list is small enough that no index is kept beside it.
pub struct ColourMap {
    pub(crate) colours: Vec<Colour>,
}

impl ColourMap {
    /// The catalog's entries, in insertion order.
    pub closed spec fn entries(self) -> Seq<Colour> {
        self.colours@
    }

    /// The entry sequence is the view of the entry vector; the sibling
    /// modules that implement the lookups work through this equality.
    pub(crate) proof fn entries_eq(&self)
        ensures
            self.entries() == self.colours@,
    {
    }

    /// A well-formed catalog is non-empty and has pairwise-distinct
    /// normalized floss codes and pairwise-distinct colours. Construction
    /// establishes this and nothing ever mutates a catalog.
    pub open spec fn wf(self) -> bool {
        &&& self.entries().len() > 0
        &&& !has_dup_floss(self.entries())
        &&& !has_dup_rgb(self.entries())
    }

    /// Builds a catalog from the builder's entry list, rejecting an empty
    /// list and duplicate floss codes or colours. On success the entry
    /// sequence is kept exactly as given.
    pub fn new(colours: Vec<Colour>) -> (r: Result<ColourMap, Error>)
        ensures
            match r {
                Ok(m) => {
                    &&& m.entries() == colours@
                    &&& m.wf()
                },
                Err(e) => {
                    &&& (colours@.len() == 0 || has_dup_floss(colours@) || has_dup_rgb(colours@))
                    &&& e == (if colours@.len() == 0 {
                        Error::EmptyCatalog
                    } else if has_dup_floss(colours@) {
                        Error::DuplicateFlossCode
                    } else {
                        Error::DuplicateRgb
                    })
                },
            },
    {
        if colours.len() == 0 {
            return Err(Error::EmptyCatalog);
        }
        let n = colours.len();
        let mut i: usize = 0;
        while i < n
            invariant
                n == colours@.len(),
                0 <= i <= n,
                forall|a: int, b: int|
                    0 <= a < b < n && a < i ==> floss_key(colours@[a]) != floss_key(colours@[b]),
            decreases n - i,
        {
            let mut j: usize = i + 1;
            while j < n
                invariant
                    n == colours@.len(),
                    0 <= i < j <= n,
                    forall|b: int| i < b < j ==> floss_key(colours@[i as int]) != floss_key(colours@[b]),
                decreases n - j,
            {
                if eq_ignore_case(colours[i].floss.as_str(), colours[j].floss.as_str()) {
                    return Err(Error::DuplicateFlossCode);
                }
                j = j + 1;
            }
            i = i + 1;
        }
        let mut i: usize = 0;
        while i < n
            invariant
                n == colours@.len(),
                0 <= i <= n,
                !has_dup_floss(colours@),
                forall|a: int, b: int|
                    0 <= a < b < n && a < i ==> colours@[a].rgb() != colours@[b].rgb(),
            decreases n - i,
        {
            let mut j: usize = i + 1;
            while j < n
                invariant
                    n == colours@.len(),
                    0 <= i < j <= n,
                    !has_dup_floss(colours@),
                    forall|b: int| i < b < j ==> colours@[i as int].rgb() != colours@[b].rgb(),
                decreases n - j,
            {
                if colours[i].to_rgb() == colours[j].to_rgb() {
                    return Err(Error::DuplicateRgb);
                }
                j = j + 1;
            }
            i = i + 1;
        }
        Ok(ColourMap { colours })
    }

    /// Looks an entry up by its floss code, matched case-insensitively.
    /// Fails with `UnknownFlossCode` exactly when no entry's normalized code
    /// equals the normalized query; by catalog construction every valid
    /// floss code has a colour, so failure always means invalid input.
    pub fn lookup_floss<'a>(&'a self, floss: &str) -> (r: Result<&'a Colour, Error>)
        requires
            self.wf(),
        ensures
            match r {
                Ok(c) => exists|i: int|
                    0 <= i < self.entries().len() && floss_key(self.entries()[i]) == lower_seq(
                        floss@,
                    ) && *c == self.entries()[i],
                Err(e) => {
                    &&& e == Error::UnknownFlossCode
                    &&& forall|i: int|
                        0 <= i < self.entries().len() ==> floss_key(self.entries()[i])
                            != lower_seq(floss@)
                },
            },
    {
        let n = self.colours.len();
        let mut i: usize = 0;
        while i < n
            invariant
                n == self.entries().len(),
                0 <= i <= n,
                forall|j: int| 0 <= j < i ==> floss_key(self.entries()[j]) != lower_seq(floss@),
            decreases n - i,
        {
            if eq_ignore_case(self.colours[i].floss.as_str(), floss) {
                return Ok(&self.colours[i]);
            }
            i = i + 1;
        }
        Err(Error::UnknownFlossCode)
    }
}

/// Within a well-formed catalog a normalized floss code has at most one
/// owner, so a successful lookup of an entry's own code can only return that
/// entry, whatever the letter case of the query.
pub proof fn lemma_floss_key_unique(m: ColourMap, k: int, q: Seq<char>)
    requires
        m.wf(),
        0 <= k < m.entries().len(),
        lower_seq(q) == floss_key(m.entries()[k]),
    ensures
        forall|i: int|
            0 <= i < m.entries().len() && floss_key(m.entries()[i]) == lower_seq(q) ==> i == k,
{
    assert forall|i: int|
        0 <= i < m.entries().len() && floss_key(m.entries()[i]) == lower_seq(q) implies i
        == k by {
        if i != k {
            let (a, b) = if i < k {
                (i, k)
            } else {
                (k, i)
            };
            assert(0 <= a < b < m.entries().len() && floss_key(m.entries()[a]) == floss_key(
                m.entries()[b],
            ));
        }
    }
}

/// Within a well-formed catalog an exact colour has at most one owner, so an
/// exact RGB lookup can only return the entry carrying that colour.
pub proof fn lemma_rgb_unique(m: ColourMap, k: int)
    requires
        m.wf(),
        0 <= k < m.entries().len(),
    ensures
        forall|i: int|
            0 <= i < m.entries().len() && m.entries()[i].rgb() == m.entries()[k].rgb() ==> i == k,
{
    assert forall|i: int|
        0 <= i < m.entries().len() && m.entries()[i].rgb() == m.entries()[k].rgb() implies i
        == k by {
        if i != k {
            let (a, b) = if i < k {
                (i, k)
            } else {
                (k, i)
            };
            assert(0 <= a < b < m.entries().len() && m.entries()[a].rgb() == m.entries()[b].rgb());
        }
    }
}

} // verus!
