//! Function-notation codecs: `rgb(...)` / `rgba(...)` in the floating 0.0
//! to 1.0 form and in the integer 0 to 255 form. Each format is a capability
//! with two operations: whether a string matches its grammar, and parsing a
//! string into the canonical color.
//!
//! A string matches a format when, after discarding surrounding whitespace,
//! it reads: the keyword `rgb` or `rgba` in any casing (either keyword,
//! whether or not an alpha component follows), `(`, three or four
//! comma-separated components, `)`, with any whitespace around components
//! and commas. A floating component is `0.` or `1.` followed by one or more
//! digits; an integer component is one to three digits.

use vstd::prelude::*;
use vstd::string::*;

use crate::color::{Canonical, RGBA};
use crate::errors::ParseFormatError;
use crate::scale::{
    all_zero_digits, comp_in_range, comp_scaled, digits_num, frac_digits, lemma_digits_num_bound,
    lemma_frac_scaled_bounds, lemma_pow10_values, pow10, scaled_value,
};
use crate::scan::{digit_char, digits_end, is_digit, skip_spaces, spaces_end};

verus! {

/// The textual color formats a parse can attempt.
#[derive(Debug, Clone, Copy, PartialEq, Eq)]
pub enum ColorFormats {
    /// `rgb(...)`/`rgba(...)` with integer components, 0 to 255.
    RGBu8,
    /// `rgb(...)`/`rgba(...)` with floating components, 0.0 to 1.0.
    RGBf,
    /// `#RRGGBB[AA]` hexadecimal notation.
    Hex,
}

/// One captured component: whether its integer part is 1 (floating form
/// only), and its digits.
pub type CompCap = (bool, Seq<char>);

/// The four captured components; alpha is absent when the notation omitted
/// it.
pub type NotationCaps = (CompCap, CompCap, CompCap, Option<CompCap>);

/// The position after the keyword `rgb`/`rgba` (any casing) when it starts
/// exactly at `i`.
pub open spec fn keyword_end(s: Seq<char>, i: int) -> Option<int> {
    if 0 <= i && i + 3 <= s.len() && (s[i] == 'r' || s[i] == 'R') && (s[i + 1] == 'g' || s[i + 1]
        == 'G') && (s[i + 2] == 'b' || s[i + 2] == 'B') {
        if i + 3 < s.len() && (s[i + 3] == 'a' || s[i + 3] == 'A') {
            Some(i + 4)
        } else {
            Some(i + 3)
        }
    } else {
        None
    }
}

/// A floating component starting exactly at `i`: `0.` or `1.` then one or
/// more digits. Captures whether the integer part is 1, the fraction
/// digits, and the position after the component.
pub open spec fn float_comp_at(s: Seq<char>, i: int) -> Option<(bool, Seq<char>, int)> {
    if 0 <= i && i + 3 <= s.len() && (s[i] == '0' || s[i] == '1') && s[i + 1] == '.' && is_digit(
        s[i + 2],
    ) {
        Some((s[i] == '1', s.subrange(i + 2, digits_end(s, i + 2)), digits_end(s, i + 2)))
    } else {
        None
    }
}

/// An integer component starting exactly at `i`: one to three digits, with
/// no digit following them. Captures the digits and the position after
/// them.
pub open spec fn int_comp_at(s: Seq<char>, i: int) -> Option<(Seq<char>, int)> {
    if 0 <= i && i < s.len() && is_digit(s[i]) && digits_end(s, i) - i <= 3 {
        Some((s.subrange(i, digits_end(s, i)), digits_end(s, i)))
    } else {
        None
    }
}

/// The components captured by the floating-form grammar, or `None` when the
/// string does not match it.
pub open spec fn float_caps(s: Seq<char>) -> Option<NotationCaps> {
    match keyword_end(s, spaces_end(s, 0)) {
        None => None,
        Some(k) => if k < s.len() && s[k] == '(' {
            match float_comp_at(s, spaces_end(s, k + 1)) {
                None => None,
                Some((r1, rd, re)) => {
                    let ic = spaces_end(s, re);
                    if ic < s.len() && s[ic] == ',' {
                        match float_comp_at(s, spaces_end(s, ic + 1)) {
                            None => None,
                            Some((g1, gd, ge)) => {
                                let ic2 = spaces_end(s, ge);
                                if ic2 < s.len() && s[ic2] == ',' {
                                    match float_comp_at(s, spaces_end(s, ic2 + 1)) {
                                        None => None,
                                        Some((b1, bd, be)) => {
                                            let ic3 = spaces_end(s, be);
                                            if ic3 < s.len() && s[ic3] == ',' {
                                                match float_comp_at(s, spaces_end(s, ic3 + 1)) {
                                                    None => None,
                                                    Some((a1, ad, ae)) => {
                                                        let ic4 = spaces_end(s, ae);
                                                        if ic4 < s.len() && s[ic4] == ')'
                                                            && spaces_end(s, ic4 + 1) == s.len() {
                                                            Some(
                                                                ((r1, rd), (g1, gd), (b1, bd), Some(
                                                                    (a1, ad),
                                                                )),
                                                            )
                                                        } else {
                                                            None
                                                        }
                                                    },
                                                }
                                            } else if ic3 < s.len() && s[ic3] == ')' && spaces_end(
                                                s,
                                                ic3 + 1,
                                            ) == s.len() {
                                                Some(((r1, rd), (g1, gd), (b1, bd), None))
                                            } else {
                                                None
                                            }
                                        },
                                    }
                                } else {
                                    None
                                }
                            },
                        }
                    } else {
                        None
                    }
                },
            }
        } else {
            None
        },
    }
}

/// The components captured by the integer-form grammar, or `None` when the
/// string does not match it. The captured components carry a 0 integer
/// part: an integer component is all digits.
pub open spec fn int_caps(s: Seq<char>) -> Option<NotationCaps> {
    match keyword_end(s, spaces_end(s, 0)) {
        None => None,
        Some(k) => if k < s.len() && s[k] == '(' {
            match int_comp_at(s, spaces_end(s, k + 1)) {
                None => None,
                Some((rd, re)) => {
                    let ic = spaces_end(s, re);
                    if ic < s.len() && s[ic] == ',' {
                        match int_comp_at(s, spaces_end(s, ic + 1)) {
                            None => None,
                            Some((gd, ge)) => {
                                let ic2 = spaces_end(s, ge);
                                if ic2 < s.len() && s[ic2] == ',' {
                                    match int_comp_at(s, spaces_end(s, ic2 + 1)) {
                                        None => None,
                                        Some((bd, be)) => {
                                            let ic3 = spaces_end(s, be);
                                            if ic3 < s.len() && s[ic3] == ',' {
                                                match int_comp_at(s, spaces_end(s, ic3 + 1)) {
                                                    None => None,
                                                    Some((ad, ae)) => {
                                                        let ic4 = spaces_end(s, ae);
                                                        if ic4 < s.len() && s[ic4] == ')'
                                                            && spaces_end(s, ic4 + 1) == s.len() {
                                                            Some(
                                                                ((false, rd), (false, gd), (
                                                                false,
                                                                bd,
                                                                ), Some((false, ad))),
                                                            )
                                                        } else {
                                                            None
                                                        }
                                                    },
                                                }
                                            } else if ic3 < s.len() && s[ic3] == ')' && spaces_end(
                                                s,
                                                ic3 + 1,
                                            ) == s.len() {
                                                Some(((false, rd), (false, gd), (false, bd), None))
                                            } else {
                                                None
                                            }
                                        },
                                    }
                                } else {
                                    None
                                }
                            },
                        }
                    } else {
                        None
                    }
                },
            }
        } else {
            None
        },
    }
}

/// What the executable scanner keeps of a floating component: the integer
/// part, the number spelled by the fraction digits that take part in the
/// scaling, how many those are, whether any fraction digit at all is
/// nonzero, and where the component ends.
struct FracScan {
    one: bool,
    n: u32,
    k: usize,
    nonzero: bool,
    end: usize,
}

/// What the executable scanner keeps of an integer component: its value and
/// where it ends.
struct IntScan {
    n: u16,
    end: usize,
}

/// The scanned summary `fs` agrees with the captured component `c`.
spec fn frac_agrees(fs: FracScan, c: CompCap) -> bool {
    &&& fs.one == c.0
    &&& fs.n == digits_num(frac_digits(c.1))
    &&& fs.k == frac_digits(c.1).len()
    &&& fs.nonzero == !all_zero_digits(c.1)
    &&& forall|j: int| 0 <= j < c.1.len() ==> is_digit(#[trigger] c.1[j])
}

/// The scanned summary `is` agrees with the captured component `c`.
spec fn int_agrees(sc: IntScan, c: CompCap) -> bool {
    &&& !c.0
    &&& sc.n == digits_num(c.1)
    &&& 1 <= c.1.len() <= 3
    &&& forall|j: int| 0 <= j < c.1.len() ==> is_digit(#[trigger] c.1[j])
}

/// Matches the keyword `rgb`/`rgba` starting exactly at `i`.
fn keyword_at(s: &str, i: usize) -> (r: Option<usize>)
    requires
        i <= s@.len(),
        s@.len() <= usize::MAX,
    ensures
        match r {
            Some(j) => keyword_end(s@, i as int) == Some(j as int) && i < j <= s@.len(),
            None => keyword_end(s@, i as int) is None,
        },
{
    let len = s.unicode_len();
    if len - i < 3 {
        return None;
    }
    let c0 = s.get_char(i);
    if !(c0 == 'r' || c0 == 'R') {
        return None;
    }
    let c1 = s.get_char(i + 1);
    if !(c1 == 'g' || c1 == 'G') {
        return None;
    }
    let c2 = s.get_char(i + 2);
    if !(c2 == 'b' || c2 == 'B') {
        return None;
    }
    let j = i + 3;
    if j < len {
        let c3 = s.get_char(j);
        if c3 == 'a' || c3 == 'A' {
            return Some(j + 1);
        }
    }
    Some(j)
}

/// Scans a floating component starting exactly at `i`, summarizing its
/// digits as the scanner keeps them.
fn scan_float_comp(s: &str, i: usize) -> (r: Option<FracScan>)
    requires
        i <= s@.len(),
        s@.len() <= usize::MAX,
    ensures
        match r {
            Some(fs) => float_comp_at(s@, i as int) matches Some(c) && frac_agrees(
                fs,
                (c.0, c.1),
            ) && fs.end == c.2 && i < fs.end <= s@.len(),
            None => float_comp_at(s@, i as int) is None,
        },
{
    let len = s.unicode_len();
    if len - i < 3 {
        return None;
    }
    let c0 = s.get_char(i);
    if !(c0 == '0' || c0 == '1') {
        return None;
    }
    if s.get_char(i + 1) != '.' {
        return None;
    }
    if !digit_char(s.get_char(i + 2)) {
        return None;
    }
    let one = c0 == '1';
    let start = i + 2;
    let mut j = start;
    let mut n: u32 = 0;
    let mut k: usize = 0;
    let mut nonzero = false;
    proof {
        lemma_pow10_values();
        assert(s@.subrange(start as int, start as int) =~= Seq::<char>::empty());
    }
    while j < len && digit_char(s.get_char(j))
        invariant
            start <= j <= len,
            len == s@.len(),
            s@.len() <= usize::MAX,
            is_digit(s@[start as int]),
            digits_end(s@, start as int) == digits_end(s@, j as int),
            forall|t: int| start <= t < j ==> is_digit(#[trigger] s@[t]),
            k == if j - start <= 9 {
                j - start
            } else {
                9
            },
            n == digits_num(frac_digits(s@.subrange(start as int, j as int))),
            n < pow10(k as nat),
            pow10(9) == 1000000000,
            nonzero == !all_zero_digits(s@.subrange(start as int, j as int)),
        decreases len - j,
    {
        let c = s.get_char(j);
        let ghost ds = s@.subrange(start as int, j as int);
        let ghost ds2 = s@.subrange(start as int, j + 1);
        proof {
            assert(ds2 =~= ds.push(s@[j as int]));
            assert(ds2.drop_last() =~= ds);
            lemma_pow10_values();
        }
        if k < 9 {
            proof {
                assert(frac_digits(ds) == ds);
                assert(frac_digits(ds2) == ds2);
                lemma_digits_num_bound(ds2);
            }
            n = n * 10 + (c as u32 - 48);
            k = k + 1;
        } else {
            proof {
                assert(frac_digits(ds2) =~= frac_digits(ds));
            }
        }
        if c != '0' {
            nonzero = true;
        }
        proof {
            if all_zero_digits(ds) && s@[j as int] == '0' {
                assert forall|t: int| 0 <= t < ds2.len() implies #[trigger] ds2[t] == '0' by {
                    if t < ds.len() {
                        assert(ds2[t] == ds[t]);
                    } else {
                        assert(ds2[t] == s@[j as int]);
                    }
                }
            }
            if all_zero_digits(ds2) {
                assert forall|t: int| 0 <= t < ds.len() implies #[trigger] ds[t] == '0' by {
                    assert(ds2[t] == ds[t]);
                }
                assert(s@[j as int] == ds2[ds.len() as int]);
            }
        }
        j = j + 1;
    }
    Some(FracScan { one, n, k, nonzero, end: j })
}

/// Scans an integer component starting exactly at `i`.
fn scan_int_comp(s: &str, i: usize) -> (r: Option<IntScan>)
    requires
        i <= s@.len(),
        s@.len() <= usize::MAX,
    ensures
        match r {
            Some(sc) => int_comp_at(s@, i as int) matches Some(c) && int_agrees(sc, (false, c.0))
                && sc.end == c.1 && i < sc.end <= s@.len(),
            None => int_comp_at(s@, i as int) is None,
        },
{
    let len = s.unicode_len();
    if i >= len {
        return None;
    }
    if !digit_char(s.get_char(i)) {
        return None;
    }
    let mut j = i;
    let mut n: u16 = 0;
    proof {
        lemma_pow10_values();
        assert(s@.subrange(i as int, i as int) =~= Seq::<char>::empty());
    }
    while j < len && digit_char(s.get_char(j))
        invariant
            i <= j <= len,
            len == s@.len(),
            s@.len() <= usize::MAX,
            is_digit(s@[i as int]),
            digits_end(s@, i as int) == digits_end(s@, j as int),
            forall|t: int| i <= t < j ==> is_digit(#[trigger] s@[t]),
            j - i <= 3,
            n == digits_num(s@.subrange(i as int, j as int)),
            n < 1000,
        decreases len - j,
    {
        if j - i >= 3 {
            // a fourth digit: the component cannot match
            proof {
                assert(digits_end(s@, j as int) == digits_end(s@, j + 1));
                crate::scan::lemma_digits_end_bounds(s@, j + 1);
                assert(digits_end(s@, j as int) >= j + 1);
            }
            return None;
        }
        let c = s.get_char(j);
        let ghost ds = s@.subrange(i as int, j as int);
        let ghost ds2 = s@.subrange(i as int, j + 1);
        proof {
            assert(ds2 =~= ds.push(s@[j as int]));
            assert(ds2.drop_last() =~= ds);
            lemma_digits_num_bound(ds);
            lemma_pow10_values();
            assert(ds.len() <= 2);
            assert(digits_num(ds) < 100);
        }
        n = n * 10 + (c as u32 - 48) as u16;
        j = j + 1;
    }
    Some(IntScan { n, end: j })
}

/// The scanned summaries of a whole floating-form notation.
struct FloatCapsScan {
    r: FracScan,
    g: FracScan,
    b: FracScan,
    a: Option<FracScan>,
}

/// The scanned summaries of a whole integer-form notation.
struct IntCapsScan {
    r: IntScan,
    g: IntScan,
    b: IntScan,
    a: Option<IntScan>,
}

/// Scans a whole floating-form notation, agreeing with `float_caps`.
fn scan_float_caps(s: &str) -> (r: Option<FloatCapsScan>)
    ensures
        r is Some <==> float_caps(s@) is Some,
        r matches Some(cs) ==> float_caps(s@) matches Some(caps) && frac_agrees(cs.r, caps.0)
            && frac_agrees(cs.g, caps.1) && frac_agrees(cs.b, caps.2) && (match (cs.a, caps.3) {
            (Some(x), Some(y)) => frac_agrees(x, y),
            (None, None) => true,
            _ => false,
        }),
{
    let len = s.unicode_len();
    let i0 = skip_spaces(s, 0);
    let k = match keyword_at(s, i0) {
        Some(k) => k,
        None => {
            return None;
        },
    };
    if k >= len {
        return None;
    }
    if s.get_char(k) != '(' {
        return None;
    }
    let ir = skip_spaces(s, k + 1);
    let rc = match scan_float_comp(s, ir) {
        Some(c) => c,
        None => {
            return None;
        },
    };
    let ic = skip_spaces(s, rc.end);
    if ic >= len {
        return None;
    }
    if s.get_char(ic) != ',' {
        return None;
    }
    let ig = skip_spaces(s, ic + 1);
    let gc = match scan_float_comp(s, ig) {
        Some(c) => c,
        None => {
            return None;
        },
    };
    let ic2 = skip_spaces(s, gc.end);
    if ic2 >= len {
        return None;
    }
    if s.get_char(ic2) != ',' {
        return None;
    }
    let ib = skip_spaces(s, ic2 + 1);
    let bc = match scan_float_comp(s, ib) {
        Some(c) => c,
        None => {
            return None;
        },
    };
    let ic3 = skip_spaces(s, bc.end);
    if ic3 >= len {
        return None;
    }
    let c3 = s.get_char(ic3);
    if c3 == ',' {
        let ia = skip_spaces(s, ic3 + 1);
        let ac = match scan_float_comp(s, ia) {
            Some(c) => c,
            None => {
                return None;
            },
        };
        let ic4 = skip_spaces(s, ac.end);
        if ic4 >= len {
            return None;
        }
        if s.get_char(ic4) != ')' {
            return None;
        }
        if skip_spaces(s, ic4 + 1) != len {
            return None;
        }
        Some(FloatCapsScan { r: rc, g: gc, b: bc, a: Some(ac) })
    } else if c3 == ')' {
        if skip_spaces(s, ic3 + 1) != len {
            return None;
        }
        Some(FloatCapsScan { r: rc, g: gc, b: bc, a: None })
    } else {
        None
    }
}

/// Scans a whole integer-form notation, agreeing with `int_caps`.
fn scan_int_caps(s: &str) -> (r: Option<IntCapsScan>)
    ensures
        r is Some <==> int_caps(s@) is Some,
        r matches Some(cs) ==> int_caps(s@) matches Some(caps) && int_agrees(cs.r, caps.0)
            && int_agrees(cs.g, caps.1) && int_agrees(cs.b, caps.2) && (match (cs.a, caps.3) {
            (Some(x), Some(y)) => int_agrees(x, y),
            (None, None) => true,
            _ => false,
        }),
{
    let len = s.unicode_len();
    let i0 = skip_spaces(s, 0);
    let k = match keyword_at(s, i0) {
        Some(k) => k,
        None => {
            return None;
        },
    };
    if k >= len {
        return None;
    }
    if s.get_char(k) != '(' {
        return None;
    }
    let ir = skip_spaces(s, k + 1);
    let rc = match scan_int_comp(s, ir) {
        Some(c) => c,
        None => {
            return None;
        },
    };
    let ic = skip_spaces(s, rc.end);
    if ic >= len {
        return None;
    }
    if s.get_char(ic) != ',' {
        return None;
    }
    let ig = skip_spaces(s, ic + 1);
    let gc = match scan_int_comp(s, ig) {
        Some(c) => c,
        None => {
            return None;
        },
    };
    let ic2 = skip_spaces(s, gc.end);
    if ic2 >= len {
        return None;
    }
    if s.get_char(ic2) != ',' {
        return None;
    }
    let ib = skip_spaces(s, ic2 + 1);
    let bc = match scan_int_comp(s, ib) {
        Some(c) => c,
        None => {
            return None;
        },
    };
    let ic3 = skip_spaces(s, bc.end);
    if ic3 >= len {
        return None;
    }
    let c3 = s.get_char(ic3);
    if c3 == ',' {
        let ia = skip_spaces(s, ic3 + 1);
        let ac = match scan_int_comp(s, ia) {
            Some(c) => c,
            None => {
                return None;
            },
        };
        let ic4 = skip_spaces(s, ac.end);
        if ic4 >= len {
            return None;
        }
        if s.get_char(ic4) != ')' {
            return None;
        }
        if skip_spaces(s, ic4 + 1) != len {
            return None;
        }
        Some(IntCapsScan { r: rc, g: gc, b: bc, a: Some(ac) })
    } else if c3 == ')' {
        if skip_spaces(s, ic3 + 1) != len {
            return None;
        }
        Some(IntCapsScan { r: rc, g: gc, b: bc, a: None })
    } else {
        None
    }
}

/// Whether every captured floating component lies within [0.0, 1.0].
pub open spec fn float_caps_in_range(caps: NotationCaps) -> bool {
    &&& comp_in_range(caps.0.0, caps.0.1)
    &&& comp_in_range(caps.1.0, caps.1.1)
    &&& comp_in_range(caps.2.0, caps.2.1)
    &&& match caps.3 {
        Some(a) => comp_in_range(a.0, a.1),
        None => true,
    }
}

/// The canonical color of in-range floating captures; an omitted alpha is
/// 1.0, fully opaque.
pub open spec fn float_caps_color(caps: NotationCaps) -> Canonical {
    RGBA {
        r: comp_scaled(caps.0.0, caps.0.1) as u8,
        g: comp_scaled(caps.1.0, caps.1.1) as u8,
        b: comp_scaled(caps.2.0, caps.2.1) as u8,
        a: match caps.3 {
            Some(ac) => comp_scaled(ac.0, ac.1) as u8,
            None => 255,
        },
    }
}

/// Whether every captured integer component lies within 0..=255.
pub open spec fn int_caps_in_range(caps: NotationCaps) -> bool {
    &&& digits_num(caps.0.1) <= 255
    &&& digits_num(caps.1.1) <= 255
    &&& digits_num(caps.2.1) <= 255
    &&& match caps.3 {
        Some(a) => digits_num(a.1) <= 255,
        None => true,
    }
}

/// The canonical color of in-range integer captures; an omitted alpha is
/// 255, fully opaque.
pub open spec fn int_caps_color(caps: NotationCaps) -> Canonical {
    RGBA {
        r: digits_num(caps.0.1) as u8,
        g: digits_num(caps.1.1) as u8,
        b: digits_num(caps.2.1) as u8,
        a: match caps.3 {
            Some(ac) => digits_num(ac.1) as u8,
            None => 255,
        },
    }
}

/// The description a floating component outside [0.0, 1.0] fails with.
pub open spec fn float_range_message() -> Seq<char> {
    "parsed float is not within valid range (0, 1)"@
}

/// The description an integer component outside 0..=255 fails with.
pub open spec fn int_range_message() -> Seq<char> {
    "parsed int is not within valid range (0, 255)"@
}

/// A textual color format: a grammar over strings, and a parse of matching
/// strings into the canonical color.
pub trait ColorFormat {
    /// Whether `s` matches this format's grammar.
    spec fn spec_matches(s: Seq<char>) -> bool;

    /// The color `s` parses to, or `None` when `s` does not match the
    /// grammar or a captured component fails validation.
    spec fn spec_result(s: Seq<char>) -> Option<Canonical>;

    /// The error a failing parse of `s` carries: the format attempted, and
    /// either the offending input or the validation failure's description.
    spec fn spec_error(s: Seq<char>) -> (ColorFormats, Seq<char>);

    /// True iff the text (whitespace-trimmed) matches this format's
    /// grammar.
    fn matches(color_str: &str) -> (b: bool)
        ensures
            b == Self::spec_matches(color_str@),
    ;

    /// Parses the text into the canonical color, or describes why it does
    /// not denote one.
    fn parse(color_str: &str) -> (r: Result<Canonical, ParseFormatError>)
        ensures
            match r {
                Ok(c) => Self::spec_result(color_str@) == Some(c),
                Err(e) => Self::spec_result(color_str@) is None && e.0 == Self::spec_error(
                    color_str@,
                ).0 && e.1@ == Self::spec_error(color_str@).1,
            },
    ;
}

/// `rgb(...)`/`rgba(...)` with floating components in [0.0, 1.0].
pub struct RGBFloatFormat {}

/// `rgb(...)`/`rgba(...)` with integer components in 0..=255.
pub struct RGBu8Format {}

/// The channel value of the scanned floating component `fs`, whose digits
/// are `ds`.
fn frac_channel(fs: FracScan, Ghost(ds): Ghost<Seq<char>>) -> (v: u8)
    requires
        frac_agrees(fs, (fs.one, ds)),
    ensures
        v == comp_scaled(fs.one, ds) as u8,
        v == comp_scaled(fs.one, ds),
{
    if fs.one {
        255
    } else {
        proof {
            let t = frac_digits(ds);
            assert(forall|j: int| 0 <= j < t.len() ==> is_digit(#[trigger] t[j]));
            lemma_digits_num_bound(t);
            lemma_frac_scaled_bounds(ds);
        }
        scaled_value(fs.n, fs.k)
    }
}

impl ColorFormat for RGBFloatFormat {
    open spec fn spec_matches(s: Seq<char>) -> bool {
        float_caps(s) is Some
    }

    open spec fn spec_result(s: Seq<char>) -> Option<Canonical> {
        match float_caps(s) {
            None => None,
            Some(caps) => if float_caps_in_range(caps) {
                Some(float_caps_color(caps))
            } else {
                None
            },
        }
    }

    open spec fn spec_error(s: Seq<char>) -> (ColorFormats, Seq<char>) {
        if float_caps(s) is Some {
            (ColorFormats::RGBf, float_range_message())
        } else {
            (ColorFormats::RGBf, s)
        }
    }

    fn matches(color_str: &str) -> (b: bool) {
        scan_float_caps(color_str).is_some()
    }

    fn parse(color_str: &str) -> (r: Result<Canonical, ParseFormatError>) {
        match scan_float_caps(color_str) {
            None => Err(ParseFormatError(ColorFormats::RGBf, String::from_str(color_str))),
            Some(cs) => {
                let ghost caps = float_caps(color_str@).unwrap();
                let a_bad = match &cs.a {
                    Some(x) => x.one && x.nonzero,
                    None => false,
                };
                if (cs.r.one && cs.r.nonzero) || (cs.g.one && cs.g.nonzero) || (cs.b.one
                    && cs.b.nonzero) || a_bad {
                    Err(
                        ParseFormatError(
                            ColorFormats::RGBf,
                            String::from_str("parsed float is not within valid range (0, 1)"),
                        ),
                    )
                } else {
                    let rr = frac_channel(cs.r, Ghost(caps.0.1));
                    let gg = frac_channel(cs.g, Ghost(caps.1.1));
                    let bb = frac_channel(cs.b, Ghost(caps.2.1));
                    let aa = match cs.a {
                        Some(x) => frac_channel(x, Ghost(caps.3.unwrap().1)),
                        None => 255,
                    };
                    Ok(RGBA { r: rr, g: gg, b: bb, a: aa })
                }
            },
        }
    }
}

impl ColorFormat for RGBu8Format {
    open spec fn spec_matches(s: Seq<char>) -> bool {
        int_caps(s) is Some
    }

    open spec fn spec_result(s: Seq<char>) -> Option<Canonical> {
        match int_caps(s) {
            None => None,
            Some(caps) => if int_caps_in_range(caps) {
                Some(int_caps_color(caps))
            } else {
                None
            },
        }
    }

    open spec fn spec_error(s: Seq<char>) -> (ColorFormats, Seq<char>) {
        if int_caps(s) is Some {
            (ColorFormats::RGBu8, int_range_message())
        } else {
            (ColorFormats::RGBu8, s)
        }
    }

    fn matches(color_str: &str) -> (b: bool) {
        scan_int_caps(color_str).is_some()
    }

    fn parse(color_str: &str) -> (r: Result<Canonical, ParseFormatError>) {
        match scan_int_caps(color_str) {
            None => Err(ParseFormatError(ColorFormats::RGBu8, String::from_str(color_str))),
            Some(cs) => {
                let a_bad = match &cs.a {
                    Some(x) => x.n > 255,
                    None => false,
                };
                if cs.r.n > 255 || cs.g.n > 255 || cs.b.n > 255 || a_bad {
                    Err(
                        ParseFormatError(
                            ColorFormats::RGBu8,
                            String::from_str("parsed int is not within valid range (0, 255)"),
                        ),
                    )
                } else {
                    let aa: u8 = match &cs.a {
                        Some(x) => x.n as u8,
                        None => 255,
                    };
                    Ok(RGBA { r: cs.r.n as u8, g: cs.g.n as u8, b: cs.b.n as u8, a: aa })
                }
            },
        }
    }
}

/// Tries the formats in a fixed order, floating first, then integer, and
/// parses with the first whose grammar the text matches; text matching
/// neither fails with the floating format's mismatch error.
pub fn parse_color(color_str: &str) -> (r: Result<Canonical, ParseFormatError>)
    ensures
        RGBFloatFormat::spec_matches(color_str@) ==> match r {
            Ok(c) => RGBFloatFormat::spec_result(color_str@) == Some(c),
            Err(e) => RGBFloatFormat::spec_result(color_str@) is None && e.0
                == ColorFormats::RGBf && e.1@ == float_range_message(),
        },
        !RGBFloatFormat::spec_matches(color_str@) && RGBu8Format::spec_matches(color_str@)
            ==> match r {
            Ok(c) => RGBu8Format::spec_result(color_str@) == Some(c),
            Err(e) => RGBu8Format::spec_result(color_str@) is None && e.0 == ColorFormats::RGBu8
                && e.1@ == int_range_message(),
        },
        !RGBFloatFormat::spec_matches(color_str@) && !RGBu8Format::spec_matches(color_str@)
            ==> match r {
            Ok(c) => false,
            Err(e) => e.0 == ColorFormats::RGBf && e.1@ == color_str@,
        },
{
    if RGBFloatFormat::matches(color_str) {
        RGBFloatFormat::parse(color_str)
    } else if RGBu8Format::matches(color_str) {
        RGBu8Format::parse(color_str)
    } else {
        RGBFloatFormat::parse(color_str)
    }
}

/// A parse can only succeed on text that matches the grammar.
pub proof fn lemma_float_result_matches(s: Seq<char>)
    ensures
        RGBFloatFormat::spec_result(s) is Some ==> RGBFloatFormat::spec_matches(s),
{
}

/// When a matching floating notation omits its alpha component, the parsed
/// color is fully opaque: the default alpha 1.0 scales to channel value
/// 255.
pub proof fn lemma_float_default_alpha(s: Seq<char>)
    requires
        float_caps(s) matches Some(caps) && caps.3 is None,
        RGBFloatFormat::spec_result(s) is Some,
    ensures
        RGBFloatFormat::spec_result(s).unwrap().a == 255,
{
}

/// The two function-notation grammars are disjoint: a floating component
/// carries a decimal point where the integer form demands a comma or a
/// closing parenthesis, so no string matches both.
pub proof fn lemma_formats_disjoint(s: Seq<char>)
    ensures
        !(RGBFloatFormat::spec_matches(s) && RGBu8Format::spec_matches(s)),
{
    if RGBFloatFormat::spec_matches(s) && RGBu8Format::spec_matches(s) {
        let k = keyword_end(s, spaces_end(s, 0)).unwrap();
        let ir = spaces_end(s, k + 1);
        // the floating match pins a '.' right after the leading digit
        assert(float_comp_at(s, ir) is Some);
        assert(s[ir + 1] == '.');
        // so the integer component is that single digit, and the '.' stands
        // where the integer grammar demands ',' or ')'
        assert(digits_end(s, ir) == digits_end(s, ir + 1));
        assert(digits_end(s, ir + 1) == ir + 1);
        assert(int_comp_at(s, ir) is Some);
        assert(int_comp_at(s, ir).unwrap().1 == ir + 1);
        assert(spaces_end(s, ir + 1) == ir + 1);
        assert(int_caps(s) is None);
    }
}

/// Matching the floating grammar does not make a color: a captured
/// component outside [0.0, 1.0] makes the parse fail with the range
/// description, even though the text matches.
pub proof fn lemma_float_range_rejection(s: Seq<char>)
    requires
        float_caps(s) is Some,
        !float_caps_in_range(float_caps(s).unwrap()),
    ensures
        RGBFloatFormat::spec_matches(s),
        RGBFloatFormat::spec_result(s) is None,
        RGBFloatFormat::spec_error(s).1 == float_range_message(),
{
}

} // verus!
