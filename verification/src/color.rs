//! The canonical color model: generic three- and four-channel colors, the
//! canonical 8-bit-per-channel form, its packed 32-bit encoding, and the
//! hexadecimal string codec.

use vstd::prelude::*;

use crate::errors::ColorError;
use crate::scan::{hex_digit_val, hex_digit_value, is_hex_digit};

verus! {

/// A named, ordered collection of canonical colors.
pub struct Scheme {
    pub name: String,
    pub colors: Vec<Canonical>,
}

/// The canonical interchange color: four 8-bit unsigned channels.
pub type Canonical = RGBA<u8>;

/// A canonical color packed into one 32-bit integer, bytes `RRGGBBAA` from
/// most to least significant.
pub type Packed = u32;

/// An ordered (R, G, B) triple over one component type.
#[derive(PartialEq, Eq, Debug, Clone, Copy)]
pub struct RGB<T> {
    pub r: T,
    pub g: T,
    pub b: T,
}

/// An ordered (R, G, B, A) quadruple over one component type.
#[derive(PartialEq, Eq, Debug, Clone, Copy)]
pub struct RGBA<T> {
    pub r: T,
    pub g: T,
    pub b: T,
    pub a: T,
}

/// The four-channel color obtained from `c` by adding the alpha channel.
pub open spec fn with_alpha<T>(c: RGB<T>, alpha: T) -> RGBA<T> {
    RGBA { r: c.r, g: c.g, b: c.b, a: alpha }
}

/// The three-channel color obtained from `c` by dropping the alpha channel.
pub open spec fn without_alpha<T>(c: RGBA<T>) -> RGB<T> {
    RGB { r: c.r, g: c.g, b: c.b }
}

/// `c` packed as `RRGGBBAA`: R in bits 24..=31, G in 16..=23, B in 8..=15,
/// A in 0..=7.
pub open spec fn pack_spec(c: Canonical) -> u32 {
    ((c.r as u32) << 24) | ((c.g as u32) << 16) | ((c.b as u32) << 8) | (c.a as u32)
}

/// The canonical color whose packed form is `p`.
pub open spec fn unpack_spec(p: u32) -> Canonical {
    RGBA { r: (p >> 24) as u8, g: (p >> 16) as u8, b: (p >> 8) as u8, a: p as u8 }
}

/// The packed form reads as the place-value sum of the four channels: each
/// channel sits in its own byte lane.
pub proof fn lemma_pack_value(c: Canonical)
    ensures
        pack_spec(c) == c.r * 0x100_0000 + c.g * 0x1_0000 + c.b * 0x100 + c.a,
{
    let r = c.r;
    let g = c.g;
    let b = c.b;
    let a = c.a;
    assert(((r as u32) << 24) | ((g as u32) << 16) | ((b as u32) << 8) | (a as u32)
        == r * 0x100_0000 + g * 0x1_0000 + b * 0x100 + a) by (bit_vector);
}

/// The channels read back from a packed value are its four bytes, most
/// significant first.
pub proof fn lemma_unpack_value(p: u32)
    ensures
        unpack_spec(p).r == p / 0x100_0000,
        unpack_spec(p).g == (p / 0x1_0000) % 0x100,
        unpack_spec(p).b == (p / 0x100) % 0x100,
        unpack_spec(p).a == p % 0x100,
{
    assert((p >> 24) as u8 == p / 0x100_0000) by (bit_vector);
    assert((p >> 16) as u8 == (p / 0x1_0000) % 0x100) by (bit_vector);
    assert((p >> 8) as u8 == (p / 0x100) % 0x100) by (bit_vector);
    assert(p as u8 == p % 0x100) by (bit_vector);
}

/// Unpacking a packed color restores every channel: `pack` followed by
/// `unpack` is the identity on canonical colors.
pub proof fn lemma_unpack_pack(c: Canonical)
    ensures
        unpack_spec(pack_spec(c)) == c,
{
    let r = c.r;
    let g = c.g;
    let b = c.b;
    let a = c.a;
    let p = pack_spec(c);
    assert((((r as u32) << 24) | ((g as u32) << 16) | ((b as u32) << 8) | (a as u32)) >> 24
        == r) by (bit_vector);
    assert(((((r as u32) << 24) | ((g as u32) << 16) | ((b as u32) << 8) | (a as u32)) >> 16) as u8
        == g) by (bit_vector);
    assert(((((r as u32) << 24) | ((g as u32) << 16) | ((b as u32) << 8) | (a as u32)) >> 8) as u8
        == b) by (bit_vector);
    assert((((r as u32) << 24) | ((g as u32) << 16) | ((b as u32) << 8) | (a as u32)) as u8
        == a) by (bit_vector);
}

/// Packing an unpacked value restores it: the packed encoding is a bijection
/// over the whole 32-bit range.
pub proof fn lemma_pack_unpack(p: u32)
    ensures
        pack_spec(unpack_spec(p)) == p,
{
    assert((((p >> 24) as u8 as u32) << 24) | (((p >> 16) as u8 as u32) << 16)
        | (((p >> 8) as u8 as u32) << 8) | (p as u8 as u32) == p) by (bit_vector);
}

/// Adding an alpha channel and dropping it again leaves the three channels
/// unchanged, and the added channel is exactly the supplied alpha.
pub proof fn lemma_alpha_round_trip<T>(c: RGB<T>, alpha: T)
    ensures
        without_alpha(with_alpha(c, alpha)) == c,
        with_alpha(c, alpha).a == alpha,
{
}

/// The digit portion of a hexadecimal color string: the input without its
/// optional leading `#`.
pub open spec fn hex_body(s: Seq<char>) -> Seq<char> {
    if s.len() >= 1 && s[0] == '#' {
        s.skip(1)
    } else {
        s
    }
}

/// Whether every character of `s` is a hexadecimal digit.
pub open spec fn all_hex_digits(s: Seq<char>) -> bool {
    forall|i: int| 0 <= i < s.len() ==> is_hex_digit(#[trigger] s[i])
}

/// The value of the two-digit group starting at `i`.
pub open spec fn hex_pair(s: Seq<char>, i: int) -> int {
    hex_digit_val(s[i]) * 16 + hex_digit_val(s[i + 1])
}

/// The start of the first two-character group from `i` on (stepping by two)
/// that is not a pair of hexadecimal digits; the end of `s` if every group
/// is one.
pub open spec fn first_bad_pair_from(s: Seq<char>, i: int) -> int
    decreases s.len() - i,
{
    if 0 <= i && i + 2 <= s.len() {
        if !is_hex_digit(s[i]) || !is_hex_digit(s[i + 1]) {
            i
        } else {
            first_bad_pair_from(s, i + 2)
        }
    } else {
        i
    }
}

/// The canonical color a hexadecimal digit string `h` denotes: six digits
/// give the three color channels with a fully opaque alpha, eight give all
/// four channels, anything else is no color.
pub open spec fn hex_color_spec(h: Seq<char>) -> Option<Canonical> {
    if (h.len() == 6 || h.len() == 8) && all_hex_digits(h) {
        Some(
            RGBA {
                r: hex_pair(h, 0) as u8,
                g: hex_pair(h, 2) as u8,
                b: hex_pair(h, 4) as u8,
                a: if h.len() == 8 {
                    hex_pair(h, 6) as u8
                } else {
                    255
                },
            },
        )
    } else {
        None
    }
}

impl Canonical {
    /// Reads the two-digit group of `s` starting at `j`, or `None` when one
    /// of the two characters is not a hexadecimal digit.
    fn hex_pair_at(s: &str, j: usize) -> (r: Option<u8>)
        requires
            j + 2 <= s@.len(),
            s@.len() <= usize::MAX,
        ensures
            match r {
                Some(v) => is_hex_digit(s@[j as int]) && is_hex_digit(s@[j + 1]) && v == hex_pair(
                    s@,
                    j as int,
                ),
                None => !is_hex_digit(s@[j as int]) || !is_hex_digit(s@[j + 1]),
            },
    {
        let hi = match hex_digit_value(s.get_char(j)) {
            Some(v) => v,
            None => {
                return None;
            },
        };
        let lo = match hex_digit_value(s.get_char(j + 1)) {
            Some(v) => v,
            None => {
                return None;
            },
        };
        Some(hi * 16 + lo)
    }

    /// Parses `#RRGGBB` or `#RRGGBBAA` (hexadecimal digits of either case,
    /// `#` optional) into the canonical color; a six-digit input gets a
    /// fully opaque alpha. Any other digit-portion length is a length
    /// error carrying the input; a group that is not base 16 is a digit
    /// error carrying the first such group and the input.
    pub fn parse_from_hex(input: &str) -> (r: Result<Self, ColorError>)
        ensures
            ({
                let h = hex_body(input@);
                match r {
                    Ok(c) => hex_color_spec(h) == Some(c),
                    Err(e) => hex_color_spec(h) is None && match e {
                        ColorError::ParseHexError(m) => h.len() != 6 && h.len() != 8 && m@
                            == input@,
                        ColorError::ParseToIntError(part, ctx) => (h.len() == 6 || h.len() == 8)
                            && !all_hex_digits(h) && part@ == h.subrange(
                            first_bad_pair_from(h, 0),
                            first_bad_pair_from(h, 0) + 2,
                        ) && ctx@ == input@,
                    },
                }
            }),
    {
        let len = input.unicode_len();
        let off: usize = if len >= 1 && input.get_char(0) == '#' {
            1
        } else {
            0
        };
        let ghost h = hex_body(input@);
        proof {
            assert(h =~= input@.subrange(off as int, len as int));
        }
        let n = len - off;
        if n != 6 && n != 8 {
            return Err(ColorError::ParseHexError(String::from_str(input)));
        }
        let rr = match Self::hex_pair_at(input, off) {
            Some(v) => v,
            None => {
                proof {
                    assert(first_bad_pair_from(h, 0) == 0);
                    assert(h.subrange(0, 2) =~= input@.subrange(off as int, off + 2));
                }
                return Err(Self::bad_pair_error(input, off));
            },
        };
        let gg = match Self::hex_pair_at(input, off + 2) {
            Some(v) => v,
            None => {
                proof {
                    assert(first_bad_pair_from(h, 0) == first_bad_pair_from(h, 2));
                    assert(first_bad_pair_from(h, 2) == 2);
                    assert(h.subrange(2, 4) =~= input@.subrange(off + 2, off + 4));
                }
                return Err(Self::bad_pair_error(input, off + 2));
            },
        };
        let bb = match Self::hex_pair_at(input, off + 4) {
            Some(v) => v,
            None => {
                proof {
                    assert(first_bad_pair_from(h, 0) == first_bad_pair_from(h, 2));
                    assert(first_bad_pair_from(h, 2) == first_bad_pair_from(h, 4));
                    assert(first_bad_pair_from(h, 4) == 4);
                    assert(h.subrange(4, 6) =~= input@.subrange(off + 4, off + 6));
                }
                return Err(Self::bad_pair_error(input, off + 4));
            },
        };
        if n == 6 {
            assert(all_hex_digits(h));
            return Ok(RGBA { r: rr, g: gg, b: bb, a: 255 });
        }
        let aa = match Self::hex_pair_at(input, off + 6) {
            Some(v) => v,
            None => {
                proof {
                    assert(first_bad_pair_from(h, 0) == first_bad_pair_from(h, 2));
                    assert(first_bad_pair_from(h, 2) == first_bad_pair_from(h, 4));
                    assert(first_bad_pair_from(h, 4) == first_bad_pair_from(h, 6));
                    assert(first_bad_pair_from(h, 6) == 6);
                    assert(h.subrange(6, 8) =~= input@.subrange(off + 6, off + 8));
                }
                return Err(Self::bad_pair_error(input, off + 6));
            },
        };
        assert(all_hex_digits(h));
        Ok(RGBA { r: rr, g: gg, b: bb, a: aa })
    }

    /// Builds the digit error for the two-character group of `input`
    /// starting at `j`.
    fn bad_pair_error(input: &str, j: usize) -> (e: ColorError)
        requires
            j + 2 <= input@.len(),
            input@.len() <= usize::MAX,
        ensures
            e matches ColorError::ParseToIntError(part, ctx) && part@ == input@.subrange(
                j as int,
                j + 2,
            ) && ctx@ == input@,
    {
        ColorError::ParseToIntError(
            String::from_str(input.substring_char(j, j + 2)),
            String::from_str(input),
        )
    }

    /// Packs the four channels into one 32-bit integer, `RRGGBBAA`.
    pub fn pack(&self) -> (p: Packed)
        ensures
            p == pack_spec(*self),
    {
        let r = (self.r as u32) << 24;
        let g = (self.g as u32) << 16;
        let b = (self.b as u32) << 8;
        let a = self.a as u32;
        r | g | b | a
    }

    /// Recovers the four channels of a packed color; each right shift moves
    /// one channel into the low byte and the cast to `u8` keeps that byte.
    pub fn unpack(rgba: Packed) -> (c: Canonical)
        ensures
            c == unpack_spec(rgba),
    {
        let r = (rgba >> 24) as u8;
        let g = (rgba >> 16) as u8;
        let b = (rgba >> 8) as u8;
        let a = rgba as u8;
        RGBA { r, g, b, a }
    }
}

impl<T> RGB<T> {
    /// Constructs a three-channel color.
    pub fn new(red: T, green: T, blue: T) -> (c: RGB<T>)
        ensures
            c == (RGB { r: red, g: green, b: blue }),
    {
        RGB { r: red, g: green, b: blue }
    }

    /// Adds an alpha channel, keeping the three channels in order.
    pub fn into_rgba(self, alpha: T) -> (c: RGBA<T>)
        ensures
            c == with_alpha(self, alpha),
    {
        RGBA { r: self.r, g: self.g, b: self.b, a: alpha }
    }

    /// Applies `f` to each channel in the fixed order R, G, B.
    pub fn map<U, F: Fn(T) -> U>(self, f: F) -> (c: RGB<U>)
        requires
            f.requires((self.r,)),
            f.requires((self.g,)),
            f.requires((self.b,)),
        ensures
            f.ensures((self.r,), c.r),
            f.ensures((self.g,), c.g),
            f.ensures((self.b,), c.b),
    {
        let RGB { r, g, b } = self;
        RGB { r: f(r), g: f(g), b: f(b) }
    }
}

impl<T> RGBA<T> {
    /// Constructs a four-channel color.
    pub fn new(red: T, green: T, blue: T, alpha: T) -> (c: RGBA<T>)
        ensures
            c == (RGBA { r: red, g: green, b: blue, a: alpha }),
    {
        RGBA { r: red, g: green, b: blue, a: alpha }
    }

    /// Replaces the alpha channel, leaving the three color channels as they
    /// are.
    pub fn into_rgba(self, alpha: T) -> (c: RGBA<T>)
        ensures
            c == with_alpha(without_alpha(self), alpha),
    {
        RGBA { r: self.r, g: self.g, b: self.b, a: alpha }
    }

    /// Applies `f` to each channel in the fixed order R, G, B, A.
    pub fn map<U, F: Fn(T) -> U>(self, f: F) -> (c: RGBA<U>)
        requires
            f.requires((self.r,)),
            f.requires((self.g,)),
            f.requires((self.b,)),
            f.requires((self.a,)),
        ensures
            f.ensures((self.r,), c.r),
            f.ensures((self.g,), c.g),
            f.ensures((self.b,), c.b),
            f.ensures((self.a,), c.a),
    {
        let RGBA { r, g, b, a } = self;
        RGBA { r: f(r), g: f(g), b: f(b), a: f(a) }
    }
}

impl<T> From<RGBA<T>> for RGB<T> {
    /// Drops the alpha channel.
    fn from(c: RGBA<T>) -> (r: Self) {
        RGB { r: c.r, g: c.g, b: c.b }
    }
}

impl<T> vstd::std_specs::convert::FromSpecImpl<RGBA<T>> for RGB<T> {
    open spec fn obeys_from_spec() -> bool {
        true
    }

    open spec fn from_spec(c: RGBA<T>) -> Self {
        without_alpha(c)
    }
}

impl From<RGB<u8>> for RGBA<u8> {
    /// Adds a fully opaque alpha channel.
    fn from(c: RGB<u8>) -> (r: Self) {
        RGBA { r: c.r, g: c.g, b: c.b, a: 255 }
    }
}

impl vstd::std_specs::convert::FromSpecImpl<RGB<u8>> for RGBA<u8> {
    open spec fn obeys_from_spec() -> bool {
        true
    }

    open spec fn from_spec(c: RGB<u8>) -> Self {
        with_alpha(c, 255)
    }
}

} // verus!
