//! ASCII rendering helpers.
//!
//! The wire formats carry numbers as ASCII text: signature words as
//! fixed-width lowercase hex, the nonce as a decimal literal, client order
//! ids as `0x`-prefixed hex.  Prices and sizes travel as decimal strings.
//! This module states those byte layouts as specification functions, proves
//! the executable renderers against them, and defines what a well-formed
//! decimal string is.

use vstd::prelude::*;

verus! {

/// The lowercase hex digit for a value below 16.
pub open spec fn spec_hex_digit(v: int) -> u8 {
    if v < 10 {
        (48 + v) as u8
    } else {
        (87 + v) as u8
    }
}

fn hex_digit(v: u8) -> (r: u8)
    requires
        v < 16,
    ensures
        r == spec_hex_digit(v as int),
{
    if v < 10 {
        48 + v
    } else {
        87 + v
    }
}

/// Lowercase hex of a byte string, two digits per byte, most significant
/// digit first.
pub open spec fn spec_hex_bytes(b: Seq<u8>) -> Seq<u8>
    decreases b.len(),
{
    if b.len() == 0 {
        Seq::empty()
    } else {
        spec_hex_bytes(b.drop_last()) + seq![
            spec_hex_digit(b.last() as int / 16),
            spec_hex_digit(b.last() as int % 16),
        ]
    }
}

/// Render a byte string as lowercase hex.
pub fn hex_bytes(b: &Vec<u8>) -> (r: Vec<u8>)
    ensures
        r@ == spec_hex_bytes(b@),
{
    let mut r: Vec<u8> = Vec::new();
    let mut i: usize = 0;
    while i < b.len()
        invariant
            0 <= i <= b.len(),
            r@ == spec_hex_bytes(b@.take(i as int)),
        decreases b.len() - i,
    {
        let x = b[i];
        r.push(hex_digit(x / 16));
        r.push(hex_digit(x % 16));
        proof {
            let t = b@.take(i as int + 1);
            assert(t.drop_last() =~= b@.take(i as int));
            assert(t.last() == b@[i as int]);
        }
        i = i + 1;
    }
    proof {
        assert(b@.take(b@.len() as int) =~= b@);
    }
    r
}

/// Fixed-width lowercase hex of an unsigned value, `width` digits, most
/// significant digit first, zero padded.
pub open spec fn spec_hex_fixed(v: int, width: nat) -> Seq<u8>
    decreases width,
{
    if width == 0 {
        Seq::empty()
    } else {
        spec_hex_fixed(v / 16, (width - 1) as nat) + seq![spec_hex_digit(v % 16)]
    }
}

pub proof fn lemma_hex_fixed_len(v: int, width: nat)
    ensures
        spec_hex_fixed(v, width).len() == width,
    decreases width,
{
    if width > 0 {
        lemma_hex_fixed_len(v / 16, (width - 1) as nat);
    }
}

/// Render a 128-bit value as fixed-width lowercase hex.
pub fn hex_u128_fixed(v: u128, width: usize) -> (r: Vec<u8>)
    ensures
        r@ == spec_hex_fixed(v as int, width as nat),
        r@.len() == width,
    decreases width,
{
    if width == 0 {
        let r: Vec<u8> = Vec::new();
        proof {
            assert(r@ =~= spec_hex_fixed(v as int, 0));
        }
        r
    } else {
        let mut r = hex_u128_fixed(v / 16, width - 1);
        r.push(hex_digit((v % 16) as u8));
        r
    }
}

/// The decimal digits of an unsigned value, most significant first, no
/// leading zeros (a single `0` for zero).
pub open spec fn spec_dec_u64(v: nat) -> Seq<u8>
    decreases v,
{
    if v < 10 {
        seq![(48 + v) as u8]
    } else {
        spec_dec_u64(v / 10) + seq![(48 + v % 10) as u8]
    }
}

/// Render a 64-bit value in decimal.
pub fn dec_u64(v: u64) -> (r: Vec<u8>)
    ensures
        r@ == spec_dec_u64(v as nat),
    decreases v,
{
    if v < 10 {
        let mut r: Vec<u8> = Vec::new();
        r.push(48 + (v as u8));
        proof {
            assert(r@ =~= seq![(48 + v as nat) as u8]);
        }
        r
    } else {
        let mut r = dec_u64(v / 10);
        r.push(48 + ((v % 10) as u8));
        r
    }
}

/// The value of a lowercase hex digit byte, or `None` for any other byte.
pub open spec fn spec_hex_val(c: u8) -> Option<int> {
    if 48 <= c <= 57 {
        Some((c - 48) as int)
    } else if 97 <= c <= 102 {
        Some((c - 87) as int)
    } else {
        None
    }
}

/// Parse a lowercase hex string into its value, most significant digit
/// first; `None` when any byte is not a lowercase hex digit.
pub open spec fn spec_hex_parse(s: Seq<u8>) -> Option<int>
    decreases s.len(),
{
    if s.len() == 0 {
        Some(0)
    } else {
        match spec_hex_parse(s.drop_last()) {
            Some(h) => match spec_hex_val(s.last()) {
                Some(d) => Some(h * 16 + d),
                None => None,
            },
            None => None,
        }
    }
}

/// Whether a value fits in `width` hex digits.
pub open spec fn spec_fits_hex(v: int, width: nat) -> bool
    decreases width,
{
    if width == 0 {
        v == 0
    } else {
        spec_fits_hex(v / 16, (width - 1) as nat)
    }
}

/// Every 128-bit value fits in 32 hex digits.
pub proof fn lemma_u128_fits_hex(v: u128)
    ensures
        spec_fits_hex(v as int, 32),
{
    assert(pow16(32) == 0x100000000000000000000000000000000) by {
        reveal_with_fuel(pow16, 33);
    }
    lemma_fits_hex_bound(v as int, 32);
}

proof fn lemma_fits_hex_bound(v: int, width: nat)
    requires
        0 <= v,
        v < pow16(width),
    ensures
        spec_fits_hex(v, width),
    decreases width,
{
    if width > 0 {
        assert(pow16(width) == 16 * pow16((width - 1) as nat));
        lemma_fits_hex_bound(v / 16, (width - 1) as nat);
    }
}

/// Sixteen to the `width`.
pub open spec fn pow16(width: nat) -> int
    decreases width,
{
    if width == 0 {
        1
    } else {
        16 * pow16((width - 1) as nat)
    }
}

/// Parsing a fixed-width rendering gives the value back.
pub proof fn lemma_hex_parse_of_fixed(v: int, width: nat)
    requires
        0 <= v,
        spec_fits_hex(v, width),
    ensures
        spec_hex_parse(spec_hex_fixed(v, width)) == Some(v),
    decreases width,
{
    if width == 0 {
        assert(spec_hex_fixed(v, 0) =~= Seq::<u8>::empty());
    } else {
        let s = spec_hex_fixed(v, width);
        let pre = spec_hex_fixed(v / 16, (width - 1) as nat);
        lemma_hex_fixed_len(v / 16, (width - 1) as nat);
        assert(s == pre + seq![spec_hex_digit(v % 16)]);
        assert(s.drop_last() =~= pre);
        assert(s.last() == spec_hex_digit(v % 16));
        lemma_hex_parse_of_fixed(v / 16, (width - 1) as nat);
        assert(spec_hex_val(spec_hex_digit(v % 16)) == Some(v % 16));
        assert((v / 16) * 16 + v % 16 == v);
    }
}

/// Parse exactly 32 lowercase hex digits starting at `from` into a 128-bit
/// value; `None` when a byte is not a lowercase hex digit.
pub fn parse_hex32(s: &[u8], from: usize) -> (r: Option<u128>)
    requires
        from + 32 <= s@.len(),
    ensures
        match r {
            Some(v) => spec_hex_parse(s@.subrange(from as int, from as int + 32)) == Some(v as int),
            None => spec_hex_parse(s@.subrange(from as int, from as int + 32)) is None,
        },
{
    let n = s.len();
    let mut acc: u128 = 0;
    let mut i: usize = 0;
    while i < 32
        invariant
            0 <= i <= 32,
            from + 32 <= s@.len(),
            n == s@.len(),
            spec_hex_parse(s@.subrange(from as int, from as int + i as int)) == Some(acc as int),
            acc < pow16(i as nat),
        decreases 32 - i,
    {
        let c = s[from + i];
        let d: u8 = if 48 <= c && c <= 57 {
            c - 48
        } else if 97 <= c && c <= 102 {
            c - 87
        } else {
            proof {
                let sub = s@.subrange(from as int, from as int + 32);
                lemma_hex_parse_prefix_none(sub, i as int + 1);
                assert(sub.take(i as int + 1).drop_last() =~= s@.subrange(
                    from as int,
                    from as int + i as int,
                ));
                assert(sub.take(i as int + 1).last() == c);
            }
            return None;
        };
        proof {
            assert(pow16(i as nat + 1) == 16 * pow16(i as nat));
            assert(acc * 16 + d < 16 * pow16(i as nat)) by (nonlinear_arith)
                requires
                    acc < pow16(i as nat),
                    d < 16,
                    pow16(i as nat) > 0,
            ;
            assert(pow16(32) == 0x100000000000000000000000000000000) by {
                reveal_with_fuel(pow16, 33);
            }
            lemma_pow16_mono(i as nat + 1, 32);
            let pre = s@.subrange(from as int, from as int + i as int);
            let cur = s@.subrange(from as int, from as int + i as int + 1);
            assert(cur.drop_last() =~= pre);
            assert(cur.last() == c);
            assert(spec_hex_val(c) == Some(d as int));
        }
        acc = acc * 16 + (d as u128);
        i = i + 1;
    }
    proof {
        assert(s@.subrange(from as int, from as int + 32) =~= s@.subrange(
            from as int,
            from as int + 32,
        ));
    }
    Some(acc)
}

proof fn lemma_pow16_mono(a: nat, b: nat)
    requires
        a <= b,
    ensures
        pow16(a) <= pow16(b),
    decreases b,
{
    if a < b {
        lemma_pow16_mono(a, (b - 1) as nat);
        assert(pow16(b) == 16 * pow16((b - 1) as nat));
        assert(pow16((b - 1) as nat) >= 1) by {
            lemma_pow16_pos((b - 1) as nat);
        }
    }
}

proof fn lemma_pow16_pos(w: nat)
    ensures
        pow16(w) >= 1,
    decreases w,
{
    if w > 0 {
        lemma_pow16_pos((w - 1) as nat);
    }
}

/// If some prefix of `s` already fails to parse, the whole string fails.
proof fn lemma_hex_parse_prefix_none(s: Seq<u8>, k: int)
    requires
        0 <= k <= s.len(),
        spec_hex_parse(s.take(k)) is None,
    ensures
        spec_hex_parse(s) is None,
    decreases s.len() - k,
{
    if k < s.len() {
        assert(s.take(k + 1).drop_last() =~= s.take(k));
        lemma_hex_parse_prefix_none(s, k + 1);
    } else {
        assert(s.take(k) =~= s);
    }
}

/// A decimal digit byte.
pub open spec fn is_digit(c: u8) -> bool {
    48 <= c <= 57
}

/// A well-formed decimal string: one or more digits, optionally followed by
/// a point and one or more fractional digits, with no trailing zero in the
/// fractional part (the canonical form the venue expects).
pub open spec fn is_decimal_bytes(s: Seq<u8>) -> bool {
    &&& s.len() > 0
    &&& {
        ||| (forall|i: int| 0 <= i < s.len() ==> is_digit(#[trigger] s[i]))
        ||| (exists|p: int|
            {
                &&& 0 < p < s.len() - 1
                &&& #[trigger] s[p] == 46u8
                &&& (forall|i: int| 0 <= i < p ==> is_digit(#[trigger] s[i]))
                &&& (forall|i: int| p < i < s.len() ==> is_digit(#[trigger] s[i]))
                &&& s.last() != 48u8
            })
    }
}

/// The number of fractional digits of a well-formed decimal string.
pub open spec fn spec_frac_digits(s: Seq<u8>) -> int {
    if exists|p: int| 0 <= p < s.len() && #[trigger] s[p] == 46u8 {
        s.len() - 1 - choose|p: int| 0 <= p < s.len() && #[trigger] s[p] == 46u8
    } else {
        0
    }
}

/// Check that a byte string is a well-formed decimal and that its number of
/// fractional digits does not exceed `max_frac`.
pub fn check_decimal(s: &Vec<u8>, max_frac: u32) -> (r: bool)
    ensures
        r == (is_decimal_bytes(s@) && spec_frac_digits(s@) <= max_frac),
{
    if s.len() == 0 {
        return false;
    }
    // Find the point, if any, and check every other byte is a digit.
    let mut point: Option<usize> = None;
    let mut i: usize = 0;
    while i < s.len()
        invariant
            0 <= i <= s.len(),
            s@.len() > 0,
            match point {
                Some(p) => 0 < p < s@.len() - 1 && p < i && s@[p as int] == 46u8 && (forall|k: int|
                    0 <= k < i && k != p ==> is_digit(#[trigger] s@[k])),
                None => forall|k: int| 0 <= k < i ==> is_digit(#[trigger] s@[k]),
            },
        decreases s.len() - i,
    {
        let c = s[i];
        if 48 <= c && c <= 57 {
            // digit: fine
        } else if c == 46 {
            match point {
                None => {
                    if i == 0 || i == s.len() - 1 {
                        proof {
                            lemma_not_decimal_bad_point(s@, i as int);
                        }
                        return false;
                    } else {
                        point = Some(i);
                    }
                },
                Some(p) => {
                    proof {
                        lemma_not_decimal_two_points(s@, p as int, i as int);
                    }
                    return false;
                },
            }
        } else {
            proof {
                lemma_not_decimal_bad_byte(s@, i as int);
            }
            return false;
        }
        i = i + 1;
    }
    match point {
        None => {
            proof {
                assert(forall|k: int| 0 <= k < s@.len() ==> is_digit(#[trigger] s@[k]));
                assert(is_decimal_bytes(s@));
                assert forall|p: int| 0 <= p < s@.len() implies s@[p] != 46u8 by {
                    assert(is_digit(s@[p]));
                }
                assert(spec_frac_digits(s@) == 0);
            }
            true
        },
        Some(p) => {
            let frac = s.len() - 1 - p;
            let last = s[s.len() - 1];
            let r = last != 48 && (frac as u64) <= (max_frac as u64);
            proof {
                let q = choose|q: int| 0 <= q < s@.len() && #[trigger] s@[q] == 46u8;
                assert(s@[p as int] == 46u8);
                assert(q == p as int);
                assert(spec_frac_digits(s@) == s@.len() - 1 - p);
                if last != 48 {
                    assert(is_decimal_bytes(s@)) by {
                        assert(0 < p < s@.len() - 1 && s@[p as int] == 46u8 && (forall|i: int|
                            0 <= i < p ==> is_digit(#[trigger] s@[i])) && (forall|i: int|
                            p < i < s@.len() ==> is_digit(#[trigger] s@[i])) && s@.last() != 48u8);
                    }
                } else {
                    assert(!is_decimal_bytes(s@)) by {
                        lemma_not_decimal_trailing_zero(s@, p as int);
                    }
                }
            }
            r
        },
    }
}

proof fn lemma_not_decimal_bad_byte(s: Seq<u8>, i: int)
    requires
        0 <= i < s.len(),
        !is_digit(s[i]),
        s[i] != 46u8,
    ensures
        !is_decimal_bytes(s),
{
}

proof fn lemma_not_decimal_bad_point(s: Seq<u8>, i: int)
    requires
        0 <= i < s.len(),
        s[i] == 46u8,
        i == 0 || i == s.len() - 1,
    ensures
        !is_decimal_bytes(s),
{
}

proof fn lemma_not_decimal_two_points(s: Seq<u8>, p: int, q: int)
    requires
        0 <= p < q < s.len(),
        s[p] == 46u8,
        s[q] == 46u8,
    ensures
        !is_decimal_bytes(s),
{
}

proof fn lemma_not_decimal_trailing_zero(s: Seq<u8>, p: int)
    requires
        0 < p < s.len() - 1,
        s[p] == 46u8,
        s.last() == 48u8,
    ensures
        !is_decimal_bytes(s),
{
    if is_decimal_bytes(s) {
        assert(!is_digit(s[p]));
    }
}

} // verus!
