use vstd::prelude::*;
use vstd::string::StringExecFns;

use crate::approx::RgbMatch;
use crate::approx::closest;
use crate::approx::deref_seq;
use crate::catalog::ColourMap;
use crate::catalog::Error;
use crate::catalog::floss_key;
use crate::colour::Colour;
use crate::hex::hex_rgb;
use crate::hex::rgb_from_hex;
use crate::hex::valid_hex;
use crate::rank::rank_spec;
use crate::render::join_seq;
use crate::render::dmc_seq;
use crate::render::hex_display_seq;
use crate::render::hex_from_rgb;
use crate::render::view_seq;
use crate::text::lower_seq;

verus! {

/// The arrow printed before an exact answer.
pub open spec fn arrow_exact() -> Seq<char> {
    seq![' ', '-', '>', ' ']
}

/// The arrow printed before an approximate answer.
pub open spec fn arrow_approx() -> Seq<char> {
    seq![' ', '~', '>', ' ']
}

/// The separator printed between tied approximate answers.
pub open spec fn sep_or() -> Seq<char> {
    seq![',', ' ', 'o', 'r', ' ']
}

/// The rendered forms of a sequence of entries.
pub open spec fn dmc_lines(s: Seq<Colour>) -> Seq<Seq<char>> {
    Seq::new(s.len(), |i: int| dmc_seq(s[i]))
}

impl ColourMap {
    /// Answers a colour query: parses the colour string, standardises it,
    /// and reports either the entry carrying exactly that colour or every
    /// nearest entry, separated by `, or `. Fails with `InvalidHexFormat`
    /// exactly when the string is malformed.
    pub fn match_hex_str(&self, hex_str: &str) -> (r: Result<String, Error>)
        requires
            self.wf(),
        ensures
            !valid_hex(hex_str@) ==> r == Err::<String, Error>(Error::InvalidHexFormat),
            valid_hex(hex_str@) ==> (match r {
                Ok(line) => {
                    let rgb = hex_rgb(hex_str@);
                    if exists|i: int|
                        0 <= i < self.entries().len() && #[trigger] self.entries()[i].rgb()
                            == rgb {
                        exists|i: int|
                            0 <= i < self.entries().len() && #[trigger] self.entries()[i].rgb()
                                == rgb && line@ == hex_display_seq(rgb) + arrow_exact() + dmc_seq(
                                self.entries()[i],
                            )
                    } else {
                        line@ == hex_display_seq(rgb) + arrow_approx() + join_seq(
                            dmc_lines(closest(self.entries(), rgb)),
                            sep_or(),
                        )
                    }
                },
                Err(_) => false,
            }),
    {
        let rgb = match rgb_from_hex(hex_str) {
            Ok(rgb) => rgb,
            Err(e) => {
                return Err(e);
            },
        };
        let mut line = hex_from_rgb(rgb);
        match self.lookup_rgb(rgb) {
            RgbMatch::Exact(c) => {
                line.append(" -> ");
                let f = c.format_dmc();
                line.append(f.as_str());
                proof {
                    reveal_strlit(" -> ");
                    assert(" -> "@ =~= arrow_exact());
                }
                Ok(line)
            },
            RgbMatch::Approx(cs) => {
                let mut parts: Vec<String> = Vec::new();
                let mut i: usize = 0;
                while i < cs.len()
                    invariant
                        0 <= i <= cs@.len(),
                        parts@.len() == i,
                        forall|j: int|
                            0 <= j < i ==> view_seq(parts@)[j] == dmc_seq(
                                #[trigger] deref_seq(cs@)[j],
                            ),
                    decreases cs@.len() - i,
                {
                    let f = cs[i].format_dmc();
                    parts.push(f);
                    i = i + 1;
                }
                let joined = join_with_or(parts);
                line.append(" ~> ");
                line.append(joined.as_str());
                proof {
                    reveal_strlit(" ~> ");
                    assert(" ~> "@ =~= arrow_approx());
                    assert(view_seq(parts@) =~= dmc_lines(closest(self.entries(), rgb)));
                }
                Ok(line)
            },
        }
    }

    /// Answers a floss-code query with the code and its colour's hex form.
    /// Fails with `UnknownFlossCode` exactly when the code matches nothing.
    pub fn match_dmc_str(&self, dmc_str: &str) -> (r: Result<String, Error>)
        requires
            self.wf(),
        ensures
            match r {
                Ok(line) => exists|i: int|
                    0 <= i < self.entries().len() && floss_key(#[trigger] self.entries()[i])
                        == lower_seq(dmc_str@) && line@ == dmc_str@ + arrow_exact()
                        + hex_display_seq(self.entries()[i].rgb()),
                Err(e) => {
                    &&& e == Error::UnknownFlossCode
                    &&& forall|i: int|
                        0 <= i < self.entries().len() ==> floss_key(#[trigger] self.entries()[i])
                            != lower_seq(dmc_str@)
                },
            },
    {
        let c = match self.lookup_floss(dmc_str) {
            Ok(c) => c,
            Err(e) => {
                return Err(e);
            },
        };
        let mut line = String::from_str(dmc_str);
        line.append(" -> ");
        let f = c.format_hex();
        line.append(f.as_str());
        proof {
            reveal_strlit(" -> ");
            assert(" -> "@ =~= arrow_exact());
        }
        Ok(line)
    }

    /// Answers a similarity query: the five catalog entries nearest to the
    /// named floss's colour — fewer only if the catalog is smaller — each
    /// rendered with its hex form, nearest first, ties in catalog order.
    /// Fails with `UnknownFlossCode` exactly when the code matches nothing.
    pub fn similar_dmc_str(&self, dmc_str: &str) -> (r: Result<Vec<String>, Error>)
        requires
            self.wf(),
        ensures
            match r {
                Ok(lines) => exists|i: int|
                    0 <= i < self.entries().len() && floss_key(#[trigger] self.entries()[i])
                        == lower_seq(dmc_str@) && ({
                        let ranked = rank_spec(self.entries(), self.entries()[i].rgb());
                        &&& lines@.len() == (if self.entries().len() < 5 {
                            self.entries().len()
                        } else {
                            5
                        })
                        &&& forall|k: int|
                            0 <= k < lines@.len() ==> view_seq(lines@)[k] == dmc_seq(
                                #[trigger] ranked[k],
                            ) + arrow_exact() + hex_display_seq(ranked[k].rgb())
                    }),
                Err(e) => {
                    &&& e == Error::UnknownFlossCode
                    &&& forall|i: int|
                        0 <= i < self.entries().len() ==> floss_key(#[trigger] self.entries()[i])
                            != lower_seq(dmc_str@)
                },
            },
    {
        let c = match self.lookup_floss(dmc_str) {
            Ok(c) => c,
            Err(e) => {
                return Err(e);
            },
        };
        let rgb = c.to_rgb();
        let ranked = self.rank_by_similarity(rgb);
        let ghost rs = rank_spec(self.entries(), rgb);
        let count = if ranked.len() < 5 {
            ranked.len()
        } else {
            5
        };
        let mut lines: Vec<String> = Vec::new();
        let mut k: usize = 0;
        while k < count
            invariant
                0 <= k <= count,
                count <= ranked@.len(),
                deref_seq(ranked@) == rs,
                lines@.len() == k,
                forall|j: int|
                    0 <= j < k ==> view_seq(lines@)[j] == dmc_seq(#[trigger] rs[j]) + arrow_exact()
                        + hex_display_seq(rs[j].rgb()),
            decreases count - k,
        {
            let mut line = ranked[k].format_dmc();
            line.append(" -> ");
            let f = ranked[k].format_hex();
            line.append(f.as_str());
            proof {
                reveal_strlit(" -> ");
                assert(" -> "@ =~= arrow_exact());
            }
            lines.push(line);
            k = k + 1;
        }
        Ok(lines)
    }
}

/// Joins rendered entries with `, or `, as tied approximate answers are
/// printed.
fn join_with_or(parts: Vec<String>) -> (r: String)
    ensures
        r@ == join_seq(view_seq(parts@), sep_or()),
{
    proof {
        reveal_strlit(", or ");
        assert(", or "@ =~= sep_or());
    }
    crate::render::join_with(parts, ", or ")
}

} // verus!
