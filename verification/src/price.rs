//! Fixed-point prices and the decimal-string grammar the providers use.
//!
//! Both providers report amounts as decimal strings (`"50000.50"`). The
//! original data model kept them as floating point and flagged that as a
//! defect; here a price is a non-negative fixed-point number of `UNIT`ths,
//! so every quote is exact and trivially non-negative.

use vstd::prelude::*;

verus! {

/// How many base-10 fractional digits a `Price` keeps.
pub const FRAC_DIGITS: u64 = 8;

/// `10^FRAC_DIGITS`: the number of `Price` units in one whole currency unit.
pub const UNIT: u64 = 100_000_000;

/// A non-negative fixed-point amount: `units / UNIT` in the fiat currency.
#[derive(Clone, Copy, Debug, PartialEq, Eq, Structural)]
pub struct Price {
    pub units: u64,
}

/// ASCII digit `'0'..='9'`.
pub open spec fn is_digit_byte(b: u8) -> bool {
    48 <= b && b <= 57
}

/// Numeric value of one ASCII digit.
pub open spec fn digit_val(b: u8) -> nat {
    (b - 48) as nat
}

/// Every byte of `s` is an ASCII digit.
pub open spec fn all_digits(s: Seq<u8>) -> bool {
    forall|i: int| 0 <= i < s.len() ==> is_digit_byte(#[trigger] s[i])
}

/// The number written by a digit string, most significant digit first.
pub open spec fn digits_val(s: Seq<u8>) -> nat
    decreases s.len(),
{
    if s.len() == 0 {
        0
    } else {
        digits_val(s.drop_last()) * 10 + digit_val(s.last())
    }
}

pub open spec fn pow10(n: nat) -> nat
    decreases n,
{
    if n == 0 {
        1
    } else {
        10 * pow10((n - 1) as nat)
    }
}

/// `k` splits `s` into a non-empty digit string, one `'.'`, and a non-empty
/// digit string.
pub open spec fn is_split(s: Seq<u8>, k: int) -> bool {
    &&& 1 <= k
    &&& k + 2 <= s.len()
    &&& s[k] == 46u8
    &&& all_digits(s.subrange(0, k))
    &&& all_digits(s.subrange(k + 1, s.len() as int))
}

/// The decimal grammar accepted for provider amounts: `digits` or
/// `digits '.' digits`. No sign, no exponent, so in particular no
/// negative amount matches.
pub open spec fn is_decimal(s: Seq<u8>) -> bool {
    ||| (s.len() > 0 && all_digits(s))
    ||| (exists|k: int| is_split(s, k))
}

/// Value of a fractional digit string in `Price` units: the first
/// `FRAC_DIGITS` digits are kept, later digits are truncated away.
pub open spec fn frac_units(f: Seq<u8>) -> nat {
    if f.len() >= FRAC_DIGITS {
        digits_val(f.take(FRAC_DIGITS as int))
    } else {
        digits_val(f) * pow10((FRAC_DIGITS - f.len()) as nat)
    }
}

/// The number of `Price` units written by a decimal string.
pub open spec fn decimal_units(s: Seq<u8>) -> nat {
    if all_digits(s) {
        digits_val(s) * (UNIT as nat)
    } else {
        let k = choose|k: int| is_split(s, k);
        digits_val(s.subrange(0, k)) * (UNIT as nat) + frac_units(
            s.subrange(k + 1, s.len() as int),
        )
    }
}

/// A split point is unique: digits never contain the dot.
pub proof fn lemma_split_unique(s: Seq<u8>, k1: int, k2: int)
    requires
        is_split(s, k1),
        is_split(s, k2),
    ensures
        k1 == k2,
{
    if k1 < k2 {
        assert(is_digit_byte(s.subrange(0, k2)[k1]));
    }
    if k2 < k1 {
        assert(is_digit_byte(s.subrange(0, k1)[k2]));
    }
}

proof fn lemma_pow10_values()
    ensures
        pow10(0) == 1,
        pow10(1) == 10,
        pow10(2) == 100,
        pow10(3) == 1000,
        pow10(4) == 10000,
        pow10(5) == 100000,
        pow10(6) == 1000000,
        pow10(7) == 10000000,
        pow10(8) == 100000000,
{
    assert(pow10(0) == 1);
    assert(pow10(1) == 10);
    assert(pow10(2) == 100);
    assert(pow10(3) == 1000);
    assert(pow10(4) == 10000);
    assert(pow10(5) == 100000);
    assert(pow10(6) == 1000000);
    assert(pow10(7) == 10000000);
    assert(pow10(8) == 100000000);
}

proof fn lemma_pow10_mul(a: nat, b: nat)
    ensures
        pow10(a) * pow10(b) == pow10(a + b),
    decreases a,
{
    if a == 0 {
        assert(pow10(a) == 1);
        assert(pow10(a) * pow10(b) == pow10(b)) by (nonlinear_arith)
            requires
                pow10(a) == 1,
        ;
    } else {
        lemma_pow10_mul((a - 1) as nat, b);
        let x = pow10((a - 1) as nat);
        let y = pow10(b);
        assert(pow10(a) == 10 * x);
        assert((a + b - 1) as nat == (a - 1) as nat + b);
        assert(pow10(a + b) == 10 * pow10((a + b - 1) as nat));
        assert(pow10(a + b) == 10 * (x * y));
        assert((10 * x) * y == 10 * (x * y)) by (nonlinear_arith);
        assert(pow10(a) * y == (10 * x) * y);
    }
}

/// A digit string of length `n` writes a number below `10^n`.
proof fn lemma_digits_val_bound(s: Seq<u8>)
    requires
        all_digits(s),
    ensures
        digits_val(s) < pow10(s.len()),
    decreases s.len(),
{
    if s.len() == 0 {
    } else {
        let t = s.drop_last();
        assert(all_digits(t));
        lemma_digits_val_bound(t);
    }
}

/// Dropping trailing digits never increases the value.
proof fn lemma_digits_val_prefix(s: Seq<u8>, j: int)
    requires
        all_digits(s),
        0 <= j <= s.len(),
    ensures
        digits_val(s.subrange(0, j)) <= digits_val(s),
    decreases s.len(),
{
    if j == s.len() {
        assert(s.subrange(0, j) =~= s);
    } else {
        let t = s.drop_last();
        assert(t =~= s.subrange(0, s.len() - 1));
        assert(all_digits(t));
        lemma_digits_val_prefix(t, j);
        assert(t.subrange(0, j) =~= s.subrange(0, j));
    }
}

/// Appending one digit multiplies by ten and adds it.
proof fn lemma_digits_val_snoc(s: Seq<u8>, a: int, b: int)
    requires
        0 <= a <= b < s.len(),
    ensures
        digits_val(s.subrange(a, b + 1)) == digits_val(s.subrange(a, b)) * 10 + digit_val(s[b]),
{
    let u = s.subrange(a, b + 1);
    assert(u.drop_last() =~= s.subrange(a, b));
    assert(u.last() == s[b]);
}

/// A byte that is neither a digit nor the dot, with no dot before it,
/// rules the whole string out.
proof fn lemma_bad_byte(s: Seq<u8>, i: int)
    requires
        0 <= i < s.len(),
        !is_digit_byte(s[i]),
        s[i] != 46u8,
        forall|j: int| 0 <= j < i ==> s[j] != 46u8,
    ensures
        !is_decimal(s),
{
    assert(!all_digits(s));
    assert forall|k: int| !is_split(s, k) by {
        if is_split(s, k) {
            if i < k {
                assert(is_digit_byte(s.subrange(0, k)[i]));
            } else if i > k {
                assert(is_digit_byte(s.subrange(k + 1, s.len() as int)[i - k - 1]));
            }
        }
    }
}

/// If the first dot sits at `k`, any split sits at `k`.
proof fn lemma_split_at_dot(s: Seq<u8>, k: int, k2: int)
    requires
        0 <= k < s.len(),
        s[k] == 46u8,
        forall|j: int| 0 <= j < k ==> s[j] != 46u8,
        is_split(s, k2),
    ensures
        k2 == k,
{
    if k2 < k {
    } else if k2 > k {
        assert(is_digit_byte(s.subrange(0, k2)[k]));
    }
}

/// A string whose first dot is its last byte is not a decimal.
proof fn lemma_no_frac(s: Seq<u8>, k: int)
    requires
        0 <= k < s.len(),
        s[k] == 46u8,
        forall|j: int| 0 <= j < k ==> s[j] != 46u8,
        k == s.len() - 1,
    ensures
        !is_decimal(s),
{
    assert(!all_digits(s));
    assert forall|k2: int| !is_split(s, k2) by {
        if is_split(s, k2) {
            lemma_split_at_dot(s, k, k2);
        }
    }
}

/// A string that starts with the dot is not a decimal.
proof fn lemma_leading_dot(s: Seq<u8>)
    requires
        s.len() > 0,
        s[0] == 46u8,
    ensures
        !is_decimal(s),
{
    assert(!all_digits(s));
    assert forall|k: int| !is_split(s, k) by {
        if is_split(s, k) {
            assert(is_digit_byte(s.subrange(0, k)[0]));
        }
    }
}

/// A non-digit after the dot rules the whole string out.
proof fn lemma_bad_frac_byte(s: Seq<u8>, k: int, i: int)
    requires
        0 <= k < i < s.len(),
        s[k] == 46u8,
        forall|j: int| 0 <= j < k ==> s[j] != 46u8,
        !is_digit_byte(s[i]),
    ensures
        !is_decimal(s),
{
    assert(!all_digits(s));
    assert forall|k2: int| !is_split(s, k2) by {
        if is_split(s, k2) {
            lemma_split_at_dot(s, k, k2);
            assert(is_digit_byte(s.subrange(k + 1, s.len() as int)[i - k - 1]));
        }
    }
}

/// `10^n` for the exponents a fractional part can need.
fn pow10_u64(n: u64) -> (r: u64)
    requires
        n <= 8,
    ensures
        r == pow10(n as nat),
{
    proof {
        lemma_pow10_values();
    }
    let mut j: u64 = 0;
    let mut r: u64 = 1;
    while j < n
        invariant
            j <= n <= 8,
            r == pow10(j as nat),
        decreases n - j,
    {
        proof {
            lemma_pow10_values();
            lemma_pow10_le(j as nat, 7);
        }
        r = r * 10;
        j = j + 1;
    }
    r
}

proof fn lemma_pow10_le(m: nat, n: nat)
    requires
        m <= n,
    ensures
        pow10(m) <= pow10(n),
    decreases n,
{
    if m < n {
        lemma_pow10_le(m, (n - 1) as nat);
    }
}

/// Parse a provider amount string into a fixed-point price.
///
/// Succeeds exactly on strings of the decimal grammar whose value fits in
/// a `Price`; anything else — empty, signed, exponent notation, stray
/// bytes, or an amount too large — is refused. Fractional digits beyond
/// `FRAC_DIGITS` are truncated, as `decimal_units` states.
pub fn parse_price(s: &Vec<u8>) -> (r: Option<Price>)
    ensures
        r is Some <==> is_decimal(s@) && decimal_units(s@) <= u64::MAX,
        r matches Some(p) ==> p.units == decimal_units(s@),
{
    let n = s.len();
    if n == 0 {
        return None;
    }
    let mut i: usize = 0;
    let mut acc: u64 = 0;
    // Integer part: digits up to the dot or the end.
    while i < n && s[i] != 46
        invariant
            0 < n == s@.len(),
            0 <= i <= n,
            all_digits(s@.subrange(0, i as int)),
            forall|j: int| 0 <= j < i ==> s@[j] != 46u8,
            acc == digits_val(s@.subrange(0, i as int)),
            acc <= 184467440737u64,
        decreases n - i,
    {
        let b = s[i];
        if b < 48 || b > 57 {
            proof {
                lemma_bad_byte(s@, i as int);
            }
            return None;
        }
        let d = (b - 48) as u64;
        if acc > 18446744073 || (acc == 18446744073 && d > 7) {
            // The integer part alone already exceeds the largest price.
            proof {
                lemma_parse_overflow(s@, i as int, acc, d);
            }
            return None;
        }
        proof {
            lemma_digits_val_snoc(s@, 0, i as int);
        }
        acc = acc * 10 + d;
        i = i + 1;
    }
    if i == n {
        // Pure integer: always fits, since the accumulator is capped.
        proof {
            assert(s@.subrange(0, n as int) =~= s@);
        }
        return Some(Price { units: acc * UNIT });
    }
    // Dot found at i.
    let k = i;
    if k == 0 {
        proof {
            lemma_leading_dot(s@);
        }
        return None;
    }
    if k + 1 == n {
        proof {
            lemma_no_frac(s@, k as int);
        }
        return None;
    }
    let mut j: usize = k + 1;
    let mut facc: u64 = 0;
    let mut fdigits: usize = 0;
    while j < n
        invariant
            0 < n == s@.len(),
            1 <= k < n - 1 < n,
            s@[k as int] == 46u8,
            all_digits(s@.subrange(0, k as int)),
            forall|jj: int| 0 <= jj < k ==> s@[jj] != 46u8,
            acc == digits_val(s@.subrange(0, k as int)),
            acc <= 184467440737u64,
            k + 1 <= j <= n,
            all_digits(s@.subrange(k + 1, j as int)),
            fdigits == if j - k - 1 <= 8 {
                (j - k - 1) as int
            } else {
                8int
            },
            facc == digits_val(s@.subrange(k + 1, k + 1 + fdigits)),
            facc < pow10(fdigits as nat),
            fdigits <= 8,
        decreases n - j,
    {
        let b = s[j];
        if b < 48 || b > 57 {
            proof {
                lemma_bad_frac_byte(s@, k as int, j as int);
            }
            return None;
        }
        if fdigits < 8 {
            proof {
                lemma_pow10_values();
                lemma_pow10_le(fdigits as nat, 7);
                lemma_digits_val_snoc(s@, k as int + 1, j as int);
            }
            facc = facc * 10 + ((b - 48) as u64);
            fdigits = fdigits + 1;
        }
        j = j + 1;
    }
    // The whole string is now known to match the grammar, split at k.
    proof {
        assert(is_split(s@, k as int));
        lemma_decimal_units_split(s@, k as int);
    }
    let flen = n - k - 1;
    let frac: u64;
    if flen >= 8 {
        proof {
            assert(s@.subrange(k + 1, s@.len() as int).take(8) =~= s@.subrange(
                k + 1,
                k as int + 9,
            ));
        }
        frac = facc;
    } else {
        let p = pow10_u64((8 - flen) as u64);
        proof {
            lemma_pow10_values();
            lemma_pow10_mul(flen as nat, (8 - flen) as nat);
            lemma_pow10_le(0, (8 - flen) as nat);
            lemma_mul_below_product(facc as nat, pow10(flen as nat), pow10((8 - flen) as nat));
            assert(s@.subrange(k + 1, k + 1 + fdigits) =~= s@.subrange(k + 1, s@.len() as int));
        }
        frac = facc * p;
    }
    assert(decimal_units(s@) == acc as nat * (UNIT as nat) + frac as nat);
    let base = acc * UNIT;
    if base > u64::MAX - frac {
        return None;
    }
    Some(Price { units: base + frac })
}

/// Digits of `n`, most significant first, no leading zeros (one zero
/// digit for zero itself).
pub open spec fn dec_digits(n: nat) -> Seq<u8>
    decreases n,
{
    if n < 10 {
        seq![(48 + n) as u8]
    } else {
        dec_digits(n / 10) + seq![(48 + (n % 10)) as u8]
    }
}

/// The last `w` digits of `n`, most significant first, padded with zeros.
pub open spec fn padded_digits(n: nat, w: nat) -> Seq<u8>
    decreases w,
{
    if w == 0 {
        Seq::empty()
    } else {
        padded_digits(n / 10, (w - 1) as nat) + seq![(48 + (n % 10)) as u8]
    }
}

/// Drop trailing zero digits of a `w`-digit fraction, keeping at least one
/// digit: yields the remaining value and width.
pub open spec fn stripped(f: nat, w: nat) -> (nat, nat)
    decreases w,
{
    if w <= 1 || f % 10 != 0 {
        (f, w)
    } else {
        stripped(f / 10, (w - 1) as nat)
    }
}

/// The canonical decimal rendering of `u` price units: integer part, dot,
/// fraction with trailing zeros removed but at least one digit.
pub open spec fn render_units(u: nat) -> Seq<u8> {
    let f = stripped(u % (UNIT as nat), FRAC_DIGITS as nat);
    dec_digits(u / (UNIT as nat)) + seq![46u8] + padded_digits(f.0, f.1)
}

fn push_dec_digits(n: u64, out: &mut Vec<u8>)
    ensures
        final(out)@ == old(out)@ + dec_digits(n as nat),
    decreases n,
{
    if n < 10 {
        out.push(48 + n as u8);
        assert(out@ =~= old(out)@ + dec_digits(n as nat));
    } else {
        push_dec_digits(n / 10, out);
        out.push(48 + (n % 10) as u8);
        assert(out@ =~= old(out)@ + dec_digits(n as nat));
    }
}

fn push_padded_digits(n: u64, w: u64, out: &mut Vec<u8>)
    ensures
        final(out)@ == old(out)@ + padded_digits(n as nat, w as nat),
    decreases w,
{
    if w == 0 {
        assert(out@ =~= old(out)@ + padded_digits(n as nat, 0));
    } else {
        push_padded_digits(n / 10, w - 1, out);
        out.push(48 + (n % 10) as u8);
        assert(out@ =~= old(out)@ + padded_digits(n as nat, w as nat));
    }
}

/// Append the canonical decimal rendering of `p` to `out`.
pub fn push_price(p: Price, out: &mut Vec<u8>)
    ensures
        final(out)@ == old(out)@ + render_units(p.units as nat),
{
    let u = p.units;
    push_dec_digits(u / UNIT, out);
    out.push(46);
    let ghost mid = out@;
    let mut f: u64 = u % UNIT;
    let mut w: u64 = 8;
    while w > 1 && f % 10 == 0
        invariant
            1 <= w <= 8,
            out@ == mid,
            stripped((u % UNIT) as nat, FRAC_DIGITS as nat) == stripped(f as nat, w as nat),
        decreases w,
    {
        f = f / 10;
        w = w - 1;
    }
    assert(stripped(f as nat, w as nat) == (f as nat, w as nat));
    push_padded_digits(f, w, out);
    assert(out@ =~= old(out)@ + render_units(u as nat));
}

/// The canonical decimal rendering of `p` as a fresh byte string.
pub fn render_price(p: Price) -> (r: Vec<u8>)
    ensures
        r@ == render_units(p.units as nat),
{
    let mut out: Vec<u8> = Vec::new();
    push_price(p, &mut out);
    out
}

/// `x < a` implies `x * b < a * b` for positive `b`.
proof fn lemma_mul_below_product(x: nat, a: nat, b: nat)
    by (nonlinear_arith)
    requires
        x < a,
        b > 0,
    ensures
        x * b < a * b,
{
}

proof fn lemma_dec_digits_wf(n: nat)
    ensures
        dec_digits(n).len() >= 1,
        all_digits(dec_digits(n)),
    decreases n,
{
    if n < 10 {
    } else {
        lemma_dec_digits_wf(n / 10);
        assert forall|i: int| 0 <= i < dec_digits(n).len() implies is_digit_byte(
            #[trigger] dec_digits(n)[i],
        ) by {
            if i < dec_digits(n / 10).len() {
                assert(dec_digits(n)[i] == dec_digits(n / 10)[i]);
            }
        }
    }
}

proof fn lemma_dec_digits_val(n: nat)
    ensures
        digits_val(dec_digits(n)) == n,
    decreases n,
{
    if n < 10 {
        let s = dec_digits(n);
        assert(s.drop_last() =~= Seq::<u8>::empty());
        assert(s.last() == (48 + n) as u8);
        assert(((48 + n) as u8) as nat == 48 + n);
        assert(digit_val(s.last()) == n);
        assert(digits_val(s) == digits_val(s.drop_last()) * 10 + digit_val(s.last()));
        assert(digits_val(s.drop_last()) == 0);
        assert(digits_val(s) == n);
    } else {
        lemma_dec_digits_val(n / 10);
        let s = dec_digits(n);
        assert(s.drop_last() =~= dec_digits(n / 10));
        assert(s.last() == (48 + (n % 10)) as u8);
        assert(((48 + (n % 10)) as u8) as nat == 48 + (n % 10));
        assert(digit_val(s.last()) == n % 10);
        assert(digits_val(s) == n / 10 * 10 + n % 10);
        assert(n == 10 * (n / 10) + n % 10);
    }
}

proof fn lemma_padded_digits_wf(n: nat, w: nat)
    ensures
        padded_digits(n, w).len() == w,
        all_digits(padded_digits(n, w)),
    decreases w,
{
    if w == 0 {
    } else {
        lemma_padded_digits_wf(n / 10, (w - 1) as nat);
        assert forall|i: int| 0 <= i < padded_digits(n, w).len() implies is_digit_byte(
            #[trigger] padded_digits(n, w)[i],
        ) by {
            if i < padded_digits(n / 10, (w - 1) as nat).len() {
                assert(padded_digits(n, w)[i] == padded_digits(n / 10, (w - 1) as nat)[i]);
            }
        }
    }
}

proof fn lemma_div10_bound(n: nat, k: nat)
    requires
        n < 10 * k,
    ensures
        n / 10 < k,
{
    if n / 10 >= k {
        assert(n == 10 * (n / 10) + n % 10);
    }
}

proof fn lemma_padded_digits_val(n: nat, w: nat)
    requires
        n < pow10(w),
    ensures
        digits_val(padded_digits(n, w)) == n,
    decreases w,
{
    if w == 0 {
    } else {
        lemma_div10_bound(n, pow10((w - 1) as nat));
        lemma_padded_digits_val(n / 10, (w - 1) as nat);
        let s = padded_digits(n, w);
        assert(s.drop_last() =~= padded_digits(n / 10, (w - 1) as nat));
        assert(digits_val(s) == n / 10 * 10 + n % 10);
        assert(n == 10 * (n / 10) + n % 10);
    }
}

/// What stripping trailing zeros preserves: the remaining digits, scaled
/// back up, give the original fraction.
proof fn lemma_stripped(f: nat, w: nat)
    requires
        1 <= w,
        f < pow10(w),
    ensures
        1 <= stripped(f, w).1 <= w,
        stripped(f, w).0 < pow10(stripped(f, w).1),
        stripped(f, w).0 * pow10((w - stripped(f, w).1) as nat) == f,
    decreases w,
{
    if w <= 1 || f % 10 != 0 {
        assert(f * pow10(0) == f) by (nonlinear_arith)
            requires
                pow10(0) == 1,
        ;
    } else {
        lemma_div10_bound(f, pow10((w - 1) as nat));
        lemma_stripped(f / 10, (w - 1) as nat);
        let fr = stripped(f / 10, (w - 1) as nat);
        assert(stripped(f, w) == fr);
        let d = ((w - 1) - fr.1) as nat;
        assert(fr.0 * pow10(d) == f / 10);
        assert(f == 10 * (f / 10));
        assert(pow10((w - fr.1) as nat) == 10 * pow10(d));
        assert(fr.0 * (10 * pow10(d)) == 10 * (fr.0 * pow10(d))) by (nonlinear_arith);
    }
}

/// Round trip: rendering any price and parsing the result yields the
/// price back, exactly — the canonical rendering is inside the accepted
/// grammar and loses nothing.
pub proof fn lemma_price_render_parse(u: u64)
    ensures
        is_decimal(render_units(u as nat)),
        decimal_units(render_units(u as nat)) == u,
{
    lemma_pow10_values();
    let q = (u as nat) / (UNIT as nat);
    let r0 = (u as nat) % (UNIT as nat);
    let fr = stripped(r0, FRAC_DIGITS as nat);
    let ip = dec_digits(q);
    let fp = padded_digits(fr.0, fr.1);
    let s = render_units(u as nat);
    lemma_dec_digits_wf(q);
    lemma_dec_digits_val(q);
    lemma_stripped(r0, FRAC_DIGITS as nat);
    lemma_padded_digits_wf(fr.0, fr.1);
    lemma_padded_digits_val(fr.0, fr.1);
    let k = ip.len() as int;
    assert(s =~= ip + seq![46u8] + fp);
    assert(s.len() == ip.len() + 1 + fp.len());
    assert(s[k] == 46u8);
    assert(s.subrange(0, k) =~= ip);
    assert(s.subrange(k + 1, s.len() as int) =~= fp);
    assert(is_split(s, k));
    assert(is_decimal(s));
    assert(!is_digit_byte(46u8));
    assert(!all_digits(s));
    let k2 = choose|k2: int| is_split(s, k2);
    lemma_split_unique(s, k, k2);
    // The fractional part scales back to the original remainder.
    assert(frac_units(fp) == r0) by {
        if fr.1 == FRAC_DIGITS {
            assert(fp.take(FRAC_DIGITS as int) =~= fp);
            assert(fr.0 * pow10(0) == fr.0) by (nonlinear_arith)
                requires
                    pow10(0) == 1,
            ;
        } else {
            assert(frac_units(fp) == digits_val(fp) * pow10((FRAC_DIGITS - fp.len()) as nat));
        }
    }
    assert(decimal_units(s) == q * (UNIT as nat) + r0);
    assert(u as nat == (UNIT as nat) * q + r0);
}

/// At a split, `decimal_units` is the integer part scaled plus the
/// fractional part.
proof fn lemma_decimal_units_split(s: Seq<u8>, k: int)
    requires
        is_split(s, k),
        forall|j: int| 0 <= j < k ==> s[j] != 46u8,
    ensures
        decimal_units(s) == digits_val(s.subrange(0, k)) * (UNIT as nat) + frac_units(
            s.subrange(k + 1, s.len() as int),
        ),
{
    assert(!all_digits(s));
    let k2 = choose|k2: int| is_split(s, k2);
    lemma_split_at_dot(s, k, k2);
}

/// Rejecting inside the integer loop is sound: the value cannot fit.
proof fn lemma_parse_overflow(s: Seq<u8>, i: int, acc: u64, d: u64)
    requires
        0 <= i < s.len(),
        all_digits(s.subrange(0, i)),
        forall|j: int| 0 <= j < i ==> s[j] != 46u8,
        is_digit_byte(s[i]),
        d == digit_val(s[i]),
        acc == digits_val(s.subrange(0, i)),
        acc > 18446744073 || (acc == 18446744073 && d > 7),
    ensures
        is_decimal(s) ==> decimal_units(s) > u64::MAX,
{
    lemma_digits_val_snoc(s, 0, i);
    let head = s.subrange(0, i + 1);
    assert(digits_val(head) == acc * 10 + d);
    assert(digits_val(head) > 184467440737);
    assert(all_digits(head));
    if is_decimal(s) {
        if all_digits(s) {
            lemma_digits_val_prefix(s, i + 1);
            assert(s.subrange(0, s.len() as int) =~= s);
            assert(digits_val(s) > 184467440737);
            assert(digits_val(s) * (UNIT as nat) >= 184467440738 * (UNIT as nat))
                by (nonlinear_arith)
                requires
                    digits_val(s) >= 184467440738;
        } else {
            let k = choose|k: int| is_split(s, k);
            assert(is_split(s, k));
            // The dot lies past i, so the integer part extends the prefix.
            assert(k > i) by {
                if k <= i {
                    if k < i {
                        assert(s[k] != 46u8);
                    } else {
                        assert(is_digit_byte(s[i]));
                    }
                }
            }
            let ip = s.subrange(0, k);
            assert(ip.subrange(0, i + 1) =~= head);
            lemma_digits_val_prefix(ip, i + 1);
            assert(digits_val(ip) > 184467440737);
            assert(digits_val(ip) * (UNIT as nat) >= 184467440738 * (UNIT as nat))
                by (nonlinear_arith)
                requires
                    digits_val(ip) >= 184467440738;
        }
    }
}

} // verus!
