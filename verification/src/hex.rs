use vstd::prelude::*;
use vstd::string::StrSliceExecFns;

use crate::catalog::Error;
use crate::colour::Rgb;

verus! {

/// The characters accepted as hex digits: both letter cases.
pub open spec fn is_hex_digit(c: char) -> bool {
    ('0' <= c && c <= '9') || ('a' <= c && c <= 'f') || ('A' <= c && c <= 'F')
}

/// The numeric value of a hex digit.
pub open spec fn hex_val(c: char) -> int
    recommends
        is_hex_digit(c),
{
    if '0' <= c && c <= '9' {
        c as int - '0' as int
    } else if 'a' <= c && c <= 'f' {
        c as int - 'a' as int + 10
    } else {
        c as int - 'A' as int + 10
    }
}

/// A colour string with its single optional leading `#` removed.
pub open spec fn digits_of(s: Seq<char>) -> Seq<char> {
    if s.len() > 0 && s[0] == '#' {
        s.drop_first()
    } else {
        s
    }
}

/// A well-formed colour string: exactly six hex digits after an optional
/// leading `#`.
pub open spec fn valid_hex(s: Seq<char>) -> bool {
    &&& digits_of(s).len() == 6
    &&& forall|i: int| 0 <= i < 6 ==> is_hex_digit(#[trigger] digits_of(s)[i])
}

/// The byte written by two hex digits.
pub open spec fn hex_byte(h: char, l: char) -> int {
    16 * hex_val(h) + hex_val(l)
}

/// The colour a well-formed colour string denotes.
pub open spec fn hex_rgb(s: Seq<char>) -> Rgb
    recommends
        valid_hex(s),
{
    let d = digits_of(s);
    Rgb {
        r: hex_byte(d[0], d[1]) as u8,
        g: hex_byte(d[2], d[3]) as u8,
        b: hex_byte(d[4], d[5]) as u8,
    }
}

/// The character that writes a digit value, in lower case: the inverse of
/// `hex_val` on the digits the library itself prints.
pub open spec fn digit_char(d: int) -> char
    recommends
        0 <= d < 16,
{
    if d < 10 {
        (('0' as int) + d) as char
    } else {
        (('a' as int) + (d - 10)) as char
    }
}

/// The numeric value of one character, if it is a hex digit.
fn hex_val_exec(c: char) -> (r: Option<u8>)
    ensures
        match r {
            Some(v) => is_hex_digit(c) && v as int == hex_val(c) && v < 16,
            None => !is_hex_digit(c),
        },
{
    if c >= '0' && c <= '9' {
        Some((c as u8) - 48)
    } else if c >= 'a' && c <= 'f' {
        Some((c as u8) - 87)
    } else if c >= 'A' && c <= 'F' {
        Some((c as u8) - 55)
    } else {
        None
    }
}

/// Parses a colour string such as `1a2b3c` or `#AF1234` into its triplet.
/// Fails with `InvalidHexFormat` exactly when the string is not six hex
/// digits after an optional leading `#`.
pub fn rgb_from_hex(hex_str: &str) -> (r: Result<Rgb, Error>)
    ensures
        valid_hex(hex_str@) ==> r == Ok::<Rgb, Error>(hex_rgb(hex_str@)),
        !valid_hex(hex_str@) ==> r == Err::<Rgb, Error>(Error::InvalidHexFormat),
{
    let n = hex_str.unicode_len();
    let start: usize = if n >= 1 && hex_str.get_char(0) == '#' {
        1
    } else {
        0
    };
    let ghost d = digits_of(hex_str@);
    proof {
        assert(d.len() == n - start);
        assert(forall|k: int| 0 <= k < d.len() ==> d[k] == hex_str@[k + start]);
    }
    if n < start + 6 || n > start + 6 {
        return Err(Error::InvalidHexFormat);
    }
    let mut vals: [u8; 6] = [0, 0, 0, 0, 0, 0];
    let mut k: usize = 0;
    while k < 6
        invariant
            n == hex_str@.len(),
            start + 6 == n,
            start <= 1,
            d == digits_of(hex_str@),
            d.len() == 6,
            forall|j: int| 0 <= j < d.len() ==> d[j] == hex_str@[j + start],
            0 <= k <= 6,
            forall|j: int| 0 <= j < k ==> is_hex_digit(#[trigger] d[j]),
            forall|j: int| 0 <= j < k ==> vals@[j] as int == hex_val(#[trigger] d[j]),
            forall|j: int| 0 <= j < k ==> vals@[j] < 16,
        decreases 6 - k,
    {
        let c = hex_str.get_char(start + k);
        match hex_val_exec(c) {
            Some(v) => {
                vals[k] = v;
            },
            None => {
                return Err(Error::InvalidHexFormat);
            },
        }
        k = k + 1;
    }
    let rgb = Rgb {
        r: 16 * vals[0] + vals[1],
        g: 16 * vals[2] + vals[3],
        b: 16 * vals[4] + vals[5],
    };
    proof {
        assert(valid_hex(hex_str@));
        assert(rgb == hex_rgb(hex_str@));
    }
    Ok(rgb)
}

} // verus!
