//! Numeric token parsing: decimal and hexadecimal literals of bounded width,
//! with the sign handling of Rust's integer parsers (an optional single `+`
//! before an unsigned literal, an optional `+` or `-` before a signed one).

use vstd::prelude::*;

verus! {

pub open spec fn is_dec_digit(b: u8) -> bool {
    48 <= b && b <= 57
}

pub open spec fn dec_digit_val(b: u8) -> int {
    b - 48
}

pub open spec fn is_hex_digit(b: u8) -> bool {
    is_dec_digit(b) || (97 <= b && b <= 102) || (65 <= b && b <= 70)
}

pub open spec fn hex_digit_val(b: u8) -> int {
    if is_dec_digit(b) {
        b - 48
    } else if 97 <= b && b <= 102 {
        b - 87
    } else {
        b - 55
    }
}

pub open spec fn all_dec_digits(s: Seq<u8>) -> bool {
    forall|i: int| 0 <= i < s.len() ==> is_dec_digit(s[i])
}

pub open spec fn all_hex_digits(s: Seq<u8>) -> bool {
    forall|i: int| 0 <= i < s.len() ==> is_hex_digit(s[i])
}

/// The number a sequence of decimal digits denotes, most significant first.
pub open spec fn dec_val(s: Seq<u8>) -> int
    decreases s.len(),
{
    if s.len() == 0 {
        0
    } else {
        dec_val(s.drop_last()) * 10 + dec_digit_val(s.last())
    }
}

/// The number a sequence of hexadecimal digits denotes, most significant
/// first.
pub open spec fn hex_val(s: Seq<u8>) -> int
    decreases s.len(),
{
    if s.len() == 0 {
        0
    } else {
        hex_val(s.drop_last()) * 16 + hex_digit_val(s.last())
    }
}

/// `s` without one optional leading `+`.
pub open spec fn strip_plus(s: Seq<u8>) -> Seq<u8> {
    if s.len() > 0 && s[0] == 43 {
        s.drop_first()
    } else {
        s
    }
}

/// Rust's unsigned decimal parse, bounded by `max`: an optional `+`, then at
/// least one digit, denoting a value of at most `max`.
pub open spec fn parse_udec(s: Seq<u8>, max: int) -> Option<int> {
    let d = strip_plus(s);
    if d.len() >= 1 && all_dec_digits(d) && dec_val(d) <= max {
        Some(dec_val(d))
    } else {
        None
    }
}

/// Rust's signed decimal parse over `min..=max`: an optional sign, then at
/// least one digit, denoting a value within the range.
pub open spec fn parse_idec(s: Seq<u8>, min: int, max: int) -> Option<int> {
    if s.len() > 0 && s[0] == 45 {
        let d = s.drop_first();
        if d.len() >= 1 && all_dec_digits(d) && -dec_val(d) >= min {
            Some(-dec_val(d))
        } else {
            None
        }
    } else {
        parse_udec(s, max)
    }
}

/// Rust's unsigned hexadecimal parse, bounded by `max`.
pub open spec fn parse_uhex(s: Seq<u8>, max: int) -> Option<int> {
    let d = strip_plus(s);
    if d.len() >= 1 && all_hex_digits(d) && hex_val(d) <= max {
        Some(hex_val(d))
    } else {
        None
    }
}

proof fn lemma_dec_val_nonneg(s: Seq<u8>)
    requires
        all_dec_digits(s),
    ensures
        dec_val(s) >= 0,
    decreases s.len(),
{
    if s.len() > 0 {
        assert(all_dec_digits(s.drop_last()));
        lemma_dec_val_nonneg(s.drop_last());
    }
}

proof fn lemma_hex_val_nonneg(s: Seq<u8>)
    requires
        all_hex_digits(s),
    ensures
        hex_val(s) >= 0,
    decreases s.len(),
{
    if s.len() > 0 {
        assert(all_hex_digits(s.drop_last()));
        lemma_hex_val_nonneg(s.drop_last());
    }
}

/// A prefix of an all-digit sequence never denotes more than the whole.
proof fn lemma_dec_val_prefix_le(s: Seq<u8>, k: int)
    requires
        all_dec_digits(s),
        0 <= k <= s.len(),
    ensures
        dec_val(s.take(k)) <= dec_val(s),
    decreases s.len() - k,
{
    if k < s.len() {
        assert(all_dec_digits(s.take(k)));
        lemma_dec_val_nonneg(s.take(k));
        assert(s.take(k + 1).drop_last() =~= s.take(k));
        assert(dec_val(s.take(k + 1)) == dec_val(s.take(k)) * 10 + dec_digit_val(s[k]));
        lemma_dec_val_prefix_le(s, k + 1);
    } else {
        assert(s.take(k) =~= s);
    }
}

proof fn lemma_hex_val_prefix_le(s: Seq<u8>, k: int)
    requires
        all_hex_digits(s),
        0 <= k <= s.len(),
    ensures
        hex_val(s.take(k)) <= hex_val(s),
    decreases s.len() - k,
{
    if k < s.len() {
        assert(all_hex_digits(s.take(k)));
        lemma_hex_val_nonneg(s.take(k));
        assert(s.take(k + 1).drop_last() =~= s.take(k));
        assert(hex_val(s.take(k + 1)) == hex_val(s.take(k)) * 16 + hex_digit_val(s[k]));
        lemma_hex_val_prefix_le(s, k + 1);
    } else {
        assert(s.take(k) =~= s);
    }
}

/// A parsed unsigned decimal literal lies within `0..=max`.
pub proof fn lemma_parse_udec_range(s: Seq<u8>, max: int)
    ensures
        parse_udec(s, max) matches Some(v) ==> 0 <= v <= max,
{
    if parse_udec(s, max) is Some {
        lemma_dec_val_nonneg(strip_plus(s));
    }
}

/// A parsed unsigned hexadecimal literal lies within `0..=max`.
pub proof fn lemma_parse_uhex_range(s: Seq<u8>, max: int)
    ensures
        parse_uhex(s, max) matches Some(v) ==> 0 <= v <= max,
{
    if parse_uhex(s, max) is Some {
        lemma_hex_val_nonneg(strip_plus(s));
    }
}

/// Reads the decimal digits of `t` from position `from` on.  Returns their
/// value when every remaining byte is a digit, there is at least one, and the
/// value stays within `max`; `None` otherwise.
fn dec_digits_value(t: &Vec<u8>, from: usize, max: u64) -> (r: Option<u64>)
    requires
        from <= t@.len(),
        max <= 0xFFFF_FFFF,
    ensures
        ({
            let d = t@.skip(from as int);
            match r {
                Some(v) => d.len() >= 1 && all_dec_digits(d) && v == dec_val(d) && v <= max,
                None => !(d.len() >= 1 && all_dec_digits(d) && dec_val(d) <= max),
            }
        }),
{
    let ghost d = t@.skip(from as int);
    if from == t.len() {
        return None;
    }
    let mut acc: u64 = 0;
    let mut i: usize = from;
    while i < t.len()
        invariant
            from <= i <= t@.len(),
            from < t@.len(),
            max <= 0xFFFF_FFFF,
            d == t@.skip(from as int),
            acc <= max,
            acc == dec_val(d.take(i - from)),
            forall|j: int| 0 <= j < i - from ==> is_dec_digit(d[j]),
        decreases t@.len() - i,
    {
        let b = t[i];
        if !(48 <= b && b <= 57) {
            assert(!all_dec_digits(d)) by {
                assert(d[i - from as int] == t@[i as int]);
            }
            return None;
        }
        let v = acc * 10 + ((b - 48) as u64);
        proof {
            assert(d.take(i + 1 - from).drop_last() =~= d.take(i - from as int));
            assert(v == dec_val(d.take(i + 1 - from)));
        }
        if v > max {
            assert(all_dec_digits(d) ==> dec_val(d) > max) by {
                if all_dec_digits(d) {
                    lemma_dec_val_prefix_le(d, i + 1 - from as int);
                }
            }
            return None;
        }
        acc = v;
        i += 1;
    }
    proof {
        assert(d.take(t@.len() - from as int) =~= d);
    }
    Some(acc)
}

/// Reads the hexadecimal digits of `t` from position `from` on, as
/// [`dec_digits_value`] does for decimal.
fn hex_digits_value(t: &Vec<u8>, from: usize, max: u64) -> (r: Option<u64>)
    requires
        from <= t@.len(),
        max <= 0xFFFF_FFFF,
    ensures
        ({
            let d = t@.skip(from as int);
            match r {
                Some(v) => d.len() >= 1 && all_hex_digits(d) && v == hex_val(d) && v <= max,
                None => !(d.len() >= 1 && all_hex_digits(d) && hex_val(d) <= max),
            }
        }),
{
    let ghost d = t@.skip(from as int);
    if from == t.len() {
        return None;
    }
    let mut acc: u64 = 0;
    let mut i: usize = from;
    while i < t.len()
        invariant
            from <= i <= t@.len(),
            from < t@.len(),
            max <= 0xFFFF_FFFF,
            d == t@.skip(from as int),
            acc <= max,
            acc == hex_val(d.take(i - from)),
            forall|j: int| 0 <= j < i - from ==> is_hex_digit(d[j]),
        decreases t@.len() - i,
    {
        let b = t[i];
        let dv: u64 = if 48 <= b && b <= 57 {
            (b - 48) as u64
        } else if 97 <= b && b <= 102 {
            (b - 87) as u64
        } else if 65 <= b && b <= 70 {
            (b - 55) as u64
        } else {
            assert(!all_hex_digits(d)) by {
                assert(d[i - from as int] == t@[i as int]);
            }
            return None;
        };
        let v = acc * 16 + dv;
        proof {
            assert(d.take(i + 1 - from).drop_last() =~= d.take(i - from as int));
            assert(v == hex_val(d.take(i + 1 - from)));
        }
        if v > max {
            assert(all_hex_digits(d) ==> hex_val(d) > max) by {
                if all_hex_digits(d) {
                    lemma_hex_val_prefix_le(d, i + 1 - from as int);
                }
            }
            return None;
        }
        acc = v;
        i += 1;
    }
    proof {
        assert(d.take(t@.len() - from as int) =~= d);
    }
    Some(acc)
}

/// Parses `t` as an unsigned decimal literal of value at most `max`.
pub fn parse_unsigned_dec(t: &Vec<u8>, max: u64) -> (r: Option<u64>)
    requires
        max <= 0xFFFF_FFFF,
    ensures
        r is Some <==> parse_udec(t@, max as int) is Some,
        r matches Some(v) ==> parse_udec(t@, max as int) == Some(v as int),
{
    let from: usize = if t.len() > 0 && t[0] == 43 {
        1
    } else {
        0
    };
    proof {
        assert(t@.skip(from as int) =~= strip_plus(t@));
    }
    dec_digits_value(t, from, max)
}

/// Parses `t` as a signed decimal literal within
/// `-neg_limit ..= pos_limit`.
pub fn parse_signed_dec(t: &Vec<u8>, neg_limit: u64, pos_limit: u64) -> (r: Option<i64>)
    requires
        neg_limit <= 0x8000_0000,
        pos_limit <= 0xFFFF_FFFF,
    ensures
        r is Some <==> parse_idec(t@, -(neg_limit as int), pos_limit as int) is Some,
        r matches Some(v) ==> parse_idec(t@, -(neg_limit as int), pos_limit as int) == Some(
            v as int,
        ),
{
    if t.len() > 0 && t[0] == 45 {
        proof {
            assert(t@.skip(1) =~= t@.drop_first());
        }
        match dec_digits_value(t, 1, neg_limit) {
            Some(m) => Some(-(m as i64)),
            None => None,
        }
    } else {
        match parse_unsigned_dec(t, pos_limit) {
            Some(v) => Some(v as i64),
            None => None,
        }
    }
}

/// Parses `t` as an unsigned hexadecimal literal of value at most `max`.
pub fn parse_unsigned_hex(t: &Vec<u8>, max: u64) -> (r: Option<u64>)
    requires
        max <= 0xFFFF_FFFF,
    ensures
        r is Some <==> parse_uhex(t@, max as int) is Some,
        r matches Some(v) ==> parse_uhex(t@, max as int) == Some(v as int),
{
    let from: usize = if t.len() > 0 && t[0] == 43 {
        1
    } else {
        0
    };
    proof {
        assert(t@.skip(from as int) =~= strip_plus(t@));
    }
    hex_digits_value(t, from, max)
}

} // verus!
