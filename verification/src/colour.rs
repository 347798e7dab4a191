use vstd::prelude::*;

verus! {

/// An exact 8-bit-per-channel colour.
#[derive(Clone, Copy, PartialEq, Eq, Structural, Debug)]
pub struct Rgb {
    pub r: u8,
    pub g: u8,
    pub b: u8,
}

/// One catalog entry: a floss code (the catalog identifier, matched
/// case-insensitively), a display name (never used for matching), and the
/// entry's exact colour.
pub struct Colour {
    pub floss: String,
    pub name: String,
    pub r: u8,
    pub g: u8,
    pub b: u8,
}

pub open spec fn abs_diff(a: int, b: int) -> int {
    if a >= b { a - b } else { b - a }
}

/// Manhattan distance between two colours: the sum of the absolute
/// per-channel differences. Ranges over 0 to 765.
pub open spec fn dist(a: Rgb, b: Rgb) -> int {
    abs_diff(a.r as int, b.r as int) + abs_diff(a.g as int, b.g as int) + abs_diff(
        a.b as int,
        b.b as int,
    )
}

impl Rgb {
    pub fn new(r: u8, g: u8, b: u8) -> (c: Rgb)
        ensures
            c == (Rgb { r, g, b }),
    {
        Rgb { r, g, b }
    }
}

impl Colour {
    /// The entry's colour, as the matcher sees it.
    pub open spec fn rgb(self) -> Rgb {
        Rgb { r: self.r, g: self.g, b: self.b }
    }

    pub fn new(floss: String, name: String, r: u8, g: u8, b: u8) -> (c: Colour)
        ensures
            c.floss == floss,
            c.name == name,
            c.rgb() == (Rgb { r, g, b }),
    {
        Colour { floss, name, r, g, b }
    }

    /// The entry's colour as a plain triplet.
    pub fn to_rgb(&self) -> (rgb: Rgb)
        ensures
            rgb == self.rgb(),
    {
        Rgb { r: self.r, g: self.g, b: self.b }
    }

    /// Manhattan distance from this entry's colour to `other`.
    pub fn diff(&self, other: Rgb) -> (d: u16)
        ensures
            d as int == dist(self.rgb(), other),
    {
        let r_diff: u8 = if self.r >= other.r {
            self.r - other.r
        } else {
            other.r - self.r
        };
        let g_diff: u8 = if self.g >= other.g {
            self.g - other.g
        } else {
            other.g - self.g
        };
        let b_diff: u8 = if self.b >= other.b {
            self.b - other.b
        } else {
            other.b - self.b
        };
        r_diff as u16 + g_diff as u16 + b_diff as u16
    }
}

/// The distance metric is zero exactly on identical triplets, is symmetric,
/// and never exceeds 765.
pub proof fn lemma_dist_properties(a: Rgb, b: Rgb)
    ensures
        dist(a, a) == 0,
        dist(a, b) == dist(b, a),
        dist(a, b) == 0 <==> a == b,
        0 <= dist(a, b) <= 765,
{
}

} // verus!
