use vstd::prelude::*;
use vstd::string::StringExecFns;

use itertools::Itertools;
use owo_colors::OwoColorize;

use crate::colour::Colour;
use crate::colour::Rgb;
use crate::hex::digit_char;

verus! {

/// The decimal rendering of a byte value, without padding.
pub open spec fn dec_seq(v: int) -> Seq<char>
    recommends
        0 <= v <= 255,
{
    if v < 10 {
        seq![digit_char(v)]
    } else if v < 100 {
        seq![digit_char(v / 10), digit_char(v % 10)]
    } else {
        seq![digit_char(v / 100), digit_char((v / 10) % 10), digit_char(v % 10)]
    }
}

/// A terminal swatch of a colour: a full-block character bracketed by the
/// 24-bit foreground escape for the colour and the foreground reset.
pub open spec fn swatch_seq(c: Rgb) -> Seq<char> {
    seq!['\u{1b}', '[', '3', '8', ';', '2', ';'] + dec_seq(c.r as int) + seq![';'] + dec_seq(
        c.g as int,
    ) + seq![';'] + dec_seq(c.b as int) + seq!['m', '\u{2588}', '\u{1b}', '[', '3', '9', 'm']
}

/// Relies on owo_colors: displaying a value through `OwoColorize::color`
/// with `DynColors::Rgb` writes the 24-bit foreground escape (with the
/// channels in unpadded decimal), the value itself, then the foreground
/// reset `ESC[39m`.
#[verifier::external_body]
fn colour_swatch(rgb: Rgb) -> (s: String)
    ensures
        s@ == swatch_seq(rgb),
{
    format!("{}", '\u{2588}'.color(owo_colors::DynColors::Rgb(rgb.r, rgb.g, rgb.b)))
}

/// The views of a sequence of strings.
pub open spec fn view_seq(s: Seq<String>) -> Seq<Seq<char>> {
    Seq::new(s.len(), |i: int| s[i]@)
}

/// The parts laid end to end with the separator between each adjacent pair.
pub open spec fn join_seq(parts: Seq<Seq<char>>, sep: Seq<char>) -> Seq<char>
    decreases parts.len(),
{
    if parts.len() == 0 {
        Seq::empty()
    } else if parts.len() == 1 {
        parts[0]
    } else {
        parts[0] + sep + join_seq(parts.drop_first(), sep)
    }
}

/// Relies on itertools' intersperse: the separator is yielded between each
/// pair of adjacent items, so collecting concatenates the items with the
/// separator between them.
#[verifier::external_body]
pub(crate) fn join_with(parts: Vec<String>, sep: &str) -> (r: String)
    ensures
        r@ == join_seq(view_seq(parts@), sep@),
{
    parts.into_iter().intersperse(String::from(sep)).collect()
}

/// One hex digit as a borrowed string.
fn hex_digit_str(v: u8) -> (r: &'static str)
    requires
        v < 16,
    ensures
        r@ == seq![digit_char(v as int)],
{
    proof {
        reveal_strlit("0");
        reveal_strlit("1");
        reveal_strlit("2");
        reveal_strlit("3");
        reveal_strlit("4");
        reveal_strlit("5");
        reveal_strlit("6");
        reveal_strlit("7");
        reveal_strlit("8");
        reveal_strlit("9");
        reveal_strlit("a");
        reveal_strlit("b");
        reveal_strlit("c");
        reveal_strlit("d");
        reveal_strlit("e");
        reveal_strlit("f");
    }
    match v {
        0 => "0",
        1 => "1",
        2 => "2",
        3 => "3",
        4 => "4",
        5 => "5",
        6 => "6",
        7 => "7",
        8 => "8",
        9 => "9",
        10 => "a",
        11 => "b",
        12 => "c",
        13 => "d",
        14 => "e",
        _ => "f",
    }
}

/// The lower-case `#rrggbb` form of a colour.
pub open spec fn hex_seq(c: Rgb) -> Seq<char> {
    seq!['#', digit_char(c.r as int / 16), digit_char(c.r as int % 16), digit_char(
        c.g as int / 16,
    ), digit_char(c.g as int % 16), digit_char(c.b as int / 16), digit_char(c.b as int % 16)]
}

/// A colour as shown to the user: its `#rrggbb` form, a space, its swatch.
pub open spec fn hex_display_seq(c: Rgb) -> Seq<char> {
    hex_seq(c) + seq![' '] + swatch_seq(c)
}

/// Renders a colour as `#rrggbb` followed by its terminal swatch.
pub fn hex_from_rgb(rgb: Rgb) -> (s: String)
    ensures
        s@ == hex_display_seq(rgb),
{
    let mut s = String::new();
    s.append("#");
    s.append(hex_digit_str(rgb.r / 16));
    s.append(hex_digit_str(rgb.r % 16));
    s.append(hex_digit_str(rgb.g / 16));
    s.append(hex_digit_str(rgb.g % 16));
    s.append(hex_digit_str(rgb.b / 16));
    s.append(hex_digit_str(rgb.b % 16));
    s.append(" ");
    let sw = colour_swatch(rgb);
    s.append(sw.as_str());
    proof {
        reveal_strlit("#");
        reveal_strlit(" ");
        assert(s@ =~= hex_display_seq(rgb));
    }
    s
}

/// The printed `#rrggbb` form of a colour is itself a well-formed colour
/// string, and parsing it yields the colour back.
pub proof fn lemma_hex_round_trip(c: Rgb)
    ensures
        crate::hex::valid_hex(hex_seq(c)),
        crate::hex::hex_rgb(hex_seq(c)) == c,
{
    let s = hex_seq(c);
    let d = crate::hex::digits_of(s);
    assert(s[0] == '#');
    assert(d =~= s.drop_first());
    assert forall|i: int| 0 <= i < 6 implies crate::hex::is_hex_digit(#[trigger] d[i]) by {
        lemma_digit_char(0);
        lemma_digit_char(c.r as int / 16);
        lemma_digit_char(c.r as int % 16);
        lemma_digit_char(c.g as int / 16);
        lemma_digit_char(c.g as int % 16);
        lemma_digit_char(c.b as int / 16);
        lemma_digit_char(c.b as int % 16);
    }
    lemma_digit_char(c.r as int / 16);
    lemma_digit_char(c.r as int % 16);
    lemma_digit_char(c.g as int / 16);
    lemma_digit_char(c.g as int % 16);
    lemma_digit_char(c.b as int / 16);
    lemma_digit_char(c.b as int % 16);
    assert(crate::hex::hex_rgb(s) == c);
}

/// Each digit character written by the library is a hex digit and reads
/// back as its own value.
proof fn lemma_digit_char(d: int)
    requires
        0 <= d < 16,
    ensures
        crate::hex::is_hex_digit(digit_char(d)),
        crate::hex::hex_val(digit_char(d)) == d,
{
    if d < 10 {
        assert(digit_char(d) as int == '0' as int + d);
    } else {
        assert(digit_char(d) as int == 'a' as int + (d - 10));
    }
}

/// A catalog entry as shown to the user: name, floss code in parentheses,
/// and a swatch of its colour.
pub open spec fn dmc_seq(c: Colour) -> Seq<char> {
    c.name@ + seq![' ', '('] + c.floss@ + seq![')', ' '] + swatch_seq(c.rgb())
}

impl Colour {
    /// Renders the entry as `name (floss) swatch`.
    pub fn format_dmc(&self) -> (s: String)
        ensures
            s@ == dmc_seq(*self),
    {
        let mut s = String::new();
        s.append(self.name.as_str());
        s.append(" (");
        s.append(self.floss.as_str());
        s.append(") ");
        let sw = colour_swatch(self.to_rgb());
        s.append(sw.as_str());
        proof {
            reveal_strlit(" (");
            reveal_strlit(") ");
            assert(s@ =~= dmc_seq(*self));
        }
        s
    }

    /// Renders the entry's colour as `#rrggbb` with its swatch.
    pub fn format_hex(&self) -> (s: String)
        ensures
            s@ == hex_display_seq(self.rgb()),
    {
        hex_from_rgb(self.to_rgb())
    }
}

} // verus!
