use vstd::prelude::*;
use crate::fee::pow10;
use vstd::string::StringSliceAdditionalSpecFns;

verus! {

/// Whether a byte is an ASCII decimal digit.
pub open spec fn is_digit(c: u8) -> bool {
    48 <= c <= 57
}

/// Whether every byte is an ASCII decimal digit.
pub open spec fn all_digits(b: Seq<u8>) -> bool {
    forall|i: int| 0 <= i < b.len() ==> is_digit(#[trigger] b[i])
}

/// The number written by decimal digits (most significant first).
pub open spec fn digits_value(b: Seq<u8>) -> nat
    decreases b.len(),
{
    if b.len() == 0 {
        0
    } else {
        digits_value(b.drop_last()) * 10 + (b.last() - 48) as nat
    }
}

/// A prefix of digits is worth no more than the whole.
pub proof fn lemma_digits_prefix_le(s: Seq<u8>, i: int)
    requires
        0 <= i <= s.len(),
        all_digits(s),
    ensures
        digits_value(s.take(i)) <= digits_value(s),
    decreases s.len(),
{
    if i < s.len() {
        let p = s.drop_last();
        assert(all_digits(p)) by {
            assert forall|j: int| 0 <= j < p.len() implies is_digit(#[trigger] p[j]) by {
                assert(p[j] == s[j]);
            }
        }
        lemma_digits_prefix_le(p, i);
        assert(p.take(i) =~= s.take(i));
        assert(is_digit(s[s.len() - 1]));
    } else {
        assert(s.take(i) =~= s);
    }
}

/// The value of the digits `b[start..end]`, or `None` where it exceeds `u64::MAX`.
fn digits_value_of(b: &[u8], start: usize, end: usize) -> (r: Option<u64>)
    requires
        start <= end <= b@.len(),
        all_digits(b@.subrange(start as int, end as int)),
    ensures
        match r {
            Some(v) => v as nat == digits_value(b@.subrange(start as int, end as int)),
            None => digits_value(b@.subrange(start as int, end as int)) > u64::MAX,
        },
{
    let ghost s = b@.subrange(start as int, end as int);
    let mut acc: u64 = 0;
    let mut i: usize = start;
    while i < end
        invariant
            start <= i <= end <= b@.len(),
            s == b@.subrange(start as int, end as int),
            all_digits(s),
            acc as nat == digits_value(s.take(i - start)),
        decreases end - i,
    {
        let ghost k: int = i - start;
        assert(s.take(k + 1).drop_last() =~= s.take(k));
        assert(s[k] == b@[i as int]);
        assert(is_digit(s[k]));
        let d = (b[i] - 48u8) as u64;
        let next = match acc.checked_mul(10) {
            Some(m) => m.checked_add(d),
            None => None,
        };
        match next {
            Some(n) => {
                acc = n;
            },
            None => {
                proof {
                    lemma_digits_prefix_le(s, k + 1);
                }
                return None;
            },
        }
        i = i + 1;
    }
    assert(s.take(end - start) =~= s);
    Some(acc)
}

/// The digit part of a `u64` text: the text without one leading `+`.
pub open spec fn u64_digits(b: Seq<u8>) -> Seq<u8> {
    if b.len() > 0 && b[0] == 43 {
        b.skip(1)
    } else {
        b
    }
}

/// What parsing a `u64` from text gives: an optional `+`, then one or more
/// digits whose value fits.
pub open spec fn parse_u64_result(b: Seq<u8>) -> Option<u64> {
    let d = u64_digits(b);
    if d.len() > 0 && all_digits(d) && digits_value(d) <= u64::MAX {
        Some(digits_value(d) as u64)
    } else {
        None
    }
}

/// Whether `b[start..end]` is all digits.
fn digits_in(b: &[u8], start: usize, end: usize) -> (r: bool)
    requires
        start <= end <= b@.len(),
    ensures
        r == all_digits(b@.subrange(start as int, end as int)),
{
    let mut i: usize = start;
    while i < end
        invariant
            start <= i <= end <= b@.len(),
            all_digits(b@.subrange(start as int, i as int)),
        decreases end - i,
    {
        if !(48u8 <= b[i] && b[i] <= 57u8) {
            assert(!is_digit(b@.subrange(start as int, end as int)[i - start]));
            return false;
        }
        i = i + 1;
        assert forall|j: int| 0 <= j < i - start implies is_digit(
            #[trigger] b@.subrange(start as int, i as int)[j],
        ) by {
            if j < i - 1 - start {
                assert(b@.subrange(start as int, i as int)[j] == b@.subrange(start as int, i - 1)[j]);
            }
        }
    }
    true
}

/// Parses an unsigned decimal number, as `str::parse::<u64>` does.
pub fn parse_u64(s: &str) -> (r: Option<u64>)
    ensures
        r == parse_u64_result(s.spec_bytes()),
{
    let b = s.as_bytes();
    let n = b.len();
    let start: usize = if n > 0 && b[0] == 43u8 { 1 } else { 0 };
    assert(u64_digits(b@) =~= b@.subrange(start as int, n as int));
    if start == n {
        return None;
    }
    if !digits_in(b, start, n) {
        return None;
    }
    digits_value_of(b, start, n)
}

/// Whether `k` is the length of the run of digits that starts `b`.
pub open spec fn is_int_len(b: Seq<u8>, k: int) -> bool {
    &&& 0 <= k <= b.len()
    &&& all_digits(b.take(k))
    &&& (k == b.len() || !is_digit(b[k]))
}

/// The run of leading digits has one length only.
pub proof fn lemma_int_len_unique(b: Seq<u8>, k1: int, k2: int)
    requires
        is_int_len(b, k1),
        is_int_len(b, k2),
    ensures
        k1 == k2,
{
    if k1 < k2 {
        assert(is_digit(b.take(k2)[k1]));
    } else if k2 < k1 {
        assert(is_digit(b.take(k1)[k2]));
    }
}

/// Length of the run of leading digits.
pub open spec fn int_len(b: Seq<u8>) -> int {
    choose|k: int| is_int_len(b, k)
}

/// Number of fixed-point decimal places of prices.
pub const FIXED_DECIMALS: usize = 6;

/// The value of fractional digits at six places: the first six digits, padded
/// with zeros on the right.
pub open spec fn frac_value(f: Seq<u8>) -> nat {
    if f.len() >= 6 {
        digits_value(f.take(6))
    } else {
        digits_value(f) * pow10((6 - f.len()) as nat)
    }
}

/// Why a decimal price text was refused.
#[derive(Clone, Copy, Debug, PartialEq, Eq)]
pub enum FixedPointError {
    /// Not digits, optionally followed by a point and more digits.
    InvalidFormat,
    /// The value does not fit in a `u64` at six places.
    Overflow,
}

/// Whether a price text is well formed: one or more digits, then either the
/// end, or a point followed by digits only.
pub open spec fn fixed6_well_formed(b: Seq<u8>) -> bool {
    let k = int_len(b);
    &&& k > 0
    &&& (k == b.len() || (b[k] == 46 && all_digits(b.skip(k + 1))))
}

/// The fixed-point value (six places, extra places dropped) of a well-formed price text.
pub open spec fn fixed6_value(b: Seq<u8>) -> nat {
    let k = int_len(b);
    let frac = if k == b.len() { Seq::<u8>::empty() } else { b.skip(k + 1) };
    digits_value(b.take(k)) * 1_000_000 + frac_value(frac)
}

/// What `to_fixed_6` answers on every text.
pub open spec fn to_fixed_6_result(b: Seq<u8>) -> Result<u64, FixedPointError> {
    if !fixed6_well_formed(b) {
        Err(FixedPointError::InvalidFormat)
    } else if fixed6_value(b) > u64::MAX {
        Err(FixedPointError::Overflow)
    } else {
        Ok(fixed6_value(b) as u64)
    }
}

/// Digits are worth less than ten to the power of their count.
pub proof fn lemma_digits_value_bound(b: Seq<u8>)
    requires
        all_digits(b),
    ensures
        digits_value(b) < pow10(b.len()),
    decreases b.len(),
{
    if b.len() > 0 {
        let p = b.drop_last();
        assert(all_digits(p)) by {
            assert forall|j: int| 0 <= j < p.len() implies is_digit(#[trigger] p[j]) by {
                assert(p[j] == b[j]);
            }
        }
        lemma_digits_value_bound(p);
        assert(is_digit(b[b.len() - 1]));
    }
}

/// Ten to the sixth.
proof fn lemma_pow10_six()
    ensures
        pow10(6) == 1_000_000,
{
    reveal_with_fuel(pow10, 7);
}

/// Powers of ten multiply by adding exponents.
proof fn lemma_pow10_add(a: nat, b: nat)
    ensures
        pow10(a) * pow10(b) == pow10(a + b),
    decreases a,
{
    if a > 0 {
        lemma_pow10_add((a - 1) as nat, b);
        let x = pow10((a - 1) as nat);
        let y = pow10(b);
        assert((10 * x) * y == 10 * (x * y)) by (nonlinear_arith);
        assert(pow10(a) == 10 * x);
        assert(((a - 1) as nat + b) as nat == (a + b - 1) as nat);
        assert(pow10(a + b) == 10 * pow10((a + b - 1) as nat));
    } else {
        assert(pow10(a) == 1);
        assert(1 * pow10(b) == pow10(b));
    }
}

/// Converts a decimal price text such as `123.4567` to fixed point with six
/// places (`123456700`); places beyond the sixth are dropped.
pub fn to_fixed_6(s: &str) -> (r: Result<u64, FixedPointError>)
    ensures
        r == to_fixed_6_result(s.spec_bytes()),
{
    let b = s.as_bytes();
    let n = b.len();
    let mut k: usize = 0;
    while k < n && 48u8 <= b[k] && b[k] <= 57u8
        invariant
            k <= n,
            n == b@.len(),
            all_digits(b@.take(k as int)),
        decreases n - k,
    {
        k = k + 1;
        assert forall|j: int| 0 <= j < k implies is_digit(#[trigger] b@.take(k as int)[j]) by {
            if j < k - 1 {
                assert(b@.take(k as int)[j] == b@.take(k - 1)[j]);
            }
        }
    }
    proof {
        assert(is_int_len(b@, k as int));
        lemma_int_len_unique(b@, k as int, int_len(b@));
    }
    if k == 0 {
        return Err(FixedPointError::InvalidFormat);
    }
    let frac_start: usize = if k == n {
        n
    } else {
        if b[k] != 46u8 {
            return Err(FixedPointError::InvalidFormat);
        }
        k + 1
    };
    if !digits_in(b, frac_start, n) {
        proof {
            assert(b@.skip(k + 1) =~= b@.subrange(frac_start as int, n as int));
        }
        return Err(FixedPointError::InvalidFormat);
    }
    let ghost frac = if k == n { Seq::<u8>::empty() } else { b@.skip(k + 1) };
    assert(frac =~= b@.subrange(frac_start as int, n as int));
    assert(b@.take(k as int) =~= b@.subrange(0, k as int));
    assert(fixed6_well_formed(b@));
    let int_val = match digits_value_of(b, 0, k) {
        Some(v) => v,
        None => {
            return Err(FixedPointError::Overflow);
        },
    };
    let scaled = match int_val.checked_mul(1_000_000) {
        Some(v) => v,
        None => {
            return Err(FixedPointError::Overflow);
        },
    };
    let flen = n - frac_start;
    let used: usize = if flen >= 6 { 6 } else { flen };
    proof {
        assert(all_digits(b@.subrange(frac_start as int, (frac_start + used) as int))) by {
            assert forall|j: int| 0 <= j < used implies is_digit(
                #[trigger] b@.subrange(frac_start as int, (frac_start + used) as int)[j],
            ) by {
                assert(b@.subrange(frac_start as int, (frac_start + used) as int)[j]
                    == frac[j]);
            }
        }
        assert(frac.take(used as int) =~= b@.subrange(frac_start as int, (frac_start + used) as int));
        lemma_digits_value_bound(frac.take(used as int));
        crate::fee::lemma_pow10_monotonic(used as nat, 6);
        lemma_pow10_six();
        lemma_pow10_add(used as nat, (6 - used) as nat);
    }
    let fv = match digits_value_of(b, frac_start, frac_start + used) {
        Some(v) => v,
        None => {
            return Err(FixedPointError::Overflow);
        },
    };
    let mut pad: u64 = 1;
    let mut j: usize = used;
    while j < 6
        invariant
            used <= j <= 6,
            pad as nat == pow10((j - used) as nat),
            pad <= 1_000_000,
        decreases 6 - j,
    {
        proof {
            crate::fee::lemma_pow10_monotonic((j + 1 - used) as nat, 6);
            lemma_pow10_six();
        }
        pad = pad * 10;
        j = j + 1;
    }
    assert(used < 6 ==> used == frac.len());
    assert(used == 6 ==> frac.len() >= 6);
    assert((fv as nat) * (pad as nat) < 1_000_000) by (nonlinear_arith)
        requires
            fv < pow10(used as nat),
            pad as nat == pow10((6 - used) as nat),
            pow10(used as nat) * pow10((6 - used) as nat) == 1_000_000;
    let fpart = fv * pad;
    proof {
        if frac.len() >= 6 {
            assert(pad == 1) by {
                reveal_with_fuel(pow10, 1);
            }
            assert(frac_value(frac) == fv as nat);
        } else {
            assert(frac.take(used as int) =~= frac);
            assert(frac_value(frac) == fv as nat * pad as nat);
        }
        assert(fixed6_value(b@) == int_val as nat * 1_000_000 + fpart as nat);
    }
    match scaled.checked_add(fpart) {
        Some(v) => Ok(v),
        None => Err(FixedPointError::Overflow),
    }
}

/// `k` ASCII zeros.
pub open spec fn zeros(k: nat) -> Seq<u8> {
    Seq::new(k, |i: int| 48u8)
}

/// The first six places of a fraction's digits, padded on the right with zeros.
pub open spec fn six_places(f: Seq<u8>) -> Seq<u8> {
    if f.len() >= 6 {
        f.take(6)
    } else {
        f + zeros((6 - f.len()) as nat)
    }
}

/// Appending zero digits multiplies a number by ten per zero.
pub proof fn lemma_append_zeros(f: Seq<u8>, m: nat)
    ensures
        digits_value(f + zeros(m)) == digits_value(f) * pow10(m),
    decreases m,
{
    if m == 0 {
        assert(f + zeros(0) =~= f);
        assert(pow10(0) == 1);
        assert(digits_value(f) * 1 == digits_value(f));
    } else {
        lemma_append_zeros(f, (m - 1) as nat);
        let g = f + zeros(m);
        assert(g.drop_last() =~= f + zeros((m - 1) as nat));
        assert(g.last() == 48u8);
        assert(g.len() > 0);
        assert(digits_value(g) == digits_value(g.drop_last()) * 10 + (g.last() - 48) as nat);
        let a = digits_value(f);
        let p = pow10((m - 1) as nat);
        assert(pow10(m) == 10 * p);
        assert((a * p) * 10 == a * (10 * p)) by (nonlinear_arith);
    }
}

/// A price text `int '.' frac` (digits on both sides, at least one before the
/// point) is worth `int * 10^6` plus its first six fractional places read as a
/// six-digit number (missing places are zeros, further places are dropped); it
/// is refused only when that value does not fit in a `u64`.
pub proof fn lemma_to_fixed_6_positional(ip: Seq<u8>, fp: Seq<u8>)
    requires
        ip.len() > 0,
        all_digits(ip),
        all_digits(fp),
    ensures
        ({
            let t = ip + seq![46u8] + fp;
            let v = digits_value(ip) * 1_000_000 + digits_value(six_places(fp));
            &&& v <= u64::MAX ==> to_fixed_6_result(t) == Ok::<u64, FixedPointError>(v as u64)
            &&& v > u64::MAX ==> to_fixed_6_result(t) == Err::<u64, FixedPointError>(FixedPointError::Overflow)
        }),
{
    let t = ip + seq![46u8] + fp;
    let k = ip.len() as int;
    assert(t.take(k) =~= ip);
    assert(t[k] == 46u8);
    assert(is_int_len(t, k));
    lemma_int_len_unique(t, k, int_len(t));
    assert(t.skip(k + 1) =~= fp);
    if fp.len() < 6 {
        lemma_append_zeros(fp, (6 - fp.len()) as nat);
    }
}

/// A price text of digits alone is worth `int * 10^6`, refused only when that
/// does not fit in a `u64`.
pub proof fn lemma_to_fixed_6_whole(ip: Seq<u8>)
    requires
        ip.len() > 0,
        all_digits(ip),
    ensures
        digits_value(ip) * 1_000_000 <= u64::MAX ==> to_fixed_6_result(ip) == Ok::<u64, FixedPointError>(
            (digits_value(ip) * 1_000_000) as u64,
        ),
        digits_value(ip) * 1_000_000 > u64::MAX ==> to_fixed_6_result(ip) == Err::<u64, FixedPointError>(
            FixedPointError::Overflow,
        ),
{
    let k = ip.len() as int;
    assert(ip.take(k) =~= ip);
    assert(is_int_len(ip, k));
    lemma_int_len_unique(ip, k, int_len(ip));
    assert(digits_value(Seq::<u8>::empty()) == 0);
}

/// A text that does not start with a digit is refused as malformed.
pub proof fn lemma_to_fixed_6_needs_leading_digit(b: Seq<u8>)
    requires
        b.len() == 0 || !is_digit(b[0]),
    ensures
        to_fixed_6_result(b) == Err::<u64, FixedPointError>(FixedPointError::InvalidFormat),
{
    assert(is_int_len(b, 0)) by {
        assert(b.take(0) =~= Seq::<u8>::empty());
    }
    lemma_int_len_unique(b, 0, int_len(b));
}

/// Digits are worth positionally: appending a digit multiplies by ten and adds it.
pub proof fn lemma_digits_value_push(f: Seq<u8>, d: u8)
    requires
        is_digit(d),
    ensures
        digits_value(f.push(d)) == digits_value(f) * 10 + (d - 48),
{
    assert(f.push(d).drop_last() =~= f);
}

/// Parsing a `u64`: digits (optionally after one `+`) whose value fits give
/// that value; an empty text, a lone `+`, or any other leading byte gives nothing.
pub proof fn lemma_parse_u64_law(d: Seq<u8>)
    ensures
        d.len() > 0 && all_digits(d) && digits_value(d) <= u64::MAX ==> parse_u64_result(d) == Some(
            digits_value(d) as u64,
        ) && parse_u64_result(seq![43u8] + d) == Some(digits_value(d) as u64),
        d.len() > 0 && all_digits(d) && digits_value(d) > u64::MAX ==> parse_u64_result(d) is None
            && parse_u64_result(seq![43u8] + d) is None,
        parse_u64_result(Seq::<u8>::empty()) is None,
        parse_u64_result(seq![43u8]) is None,
        d.len() > 0 && !is_digit(d[0]) && d[0] != 43u8 ==> parse_u64_result(d) is None,
{
    assert((seq![43u8] + d).skip(1) =~= d);
    assert(seq![43u8].skip(1) =~= Seq::<u8>::empty());
    if d.len() > 0 && !is_digit(d[0]) && d[0] != 43u8 {
        assert(u64_digits(d) == d);
        assert(!is_digit(d[0]));
    }
}

} // verus!
