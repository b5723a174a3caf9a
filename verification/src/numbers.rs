//! Decimal text handling: rendering numbers and byte lists for the
//! responses, and parsing decimal ether amounts into wei.

use vstd::prelude::*;

verus! {

/// Ten to the power k.
pub open spec fn pow10(k: nat) -> nat
    decreases k,
{
    if k == 0 {
        1
    } else {
        10 * pow10((k - 1) as nat)
    }
}

/// One ether in wei.
pub const WEI_PER_ETH: u128 = 1000000000000000000;

pub proof fn lemma_pow10_18()
    ensures
        pow10(18) == WEI_PER_ETH,
        pow10(18) >= 1,
{
    reveal_with_fuel(pow10, 20);
    assert(pow10(0) == 1);
    assert(pow10(1) == 10 * pow10(0));
    assert(pow10(2) == 10 * pow10(1));
    assert(pow10(3) == 10 * pow10(2));
    assert(pow10(4) == 10 * pow10(3));
    assert(pow10(5) == 10 * pow10(4));
    assert(pow10(6) == 10 * pow10(5));
    assert(pow10(7) == 10 * pow10(6));
    assert(pow10(8) == 10 * pow10(7));
    assert(pow10(9) == 10 * pow10(8));
    assert(pow10(10) == 10 * pow10(9));
    assert(pow10(11) == 10 * pow10(10));
    assert(pow10(12) == 10 * pow10(11));
    assert(pow10(13) == 10 * pow10(12));
    assert(pow10(14) == 10 * pow10(13));
    assert(pow10(15) == 10 * pow10(14));
    assert(pow10(16) == 10 * pow10(15));
    assert(pow10(17) == 10 * pow10(16));
    assert(pow10(18) == 10 * pow10(17));
}

pub proof fn lemma_pow10_positive(k: nat)
    ensures
        pow10(k) >= 1,
    decreases k,
{
    if k > 0 {
        lemma_pow10_positive((k - 1) as nat);
    }
}

/// The ASCII decimal digits of `n`, most significant first, without leading
/// zeros (`"0"` for zero).
pub open spec fn dec_digits(n: nat) -> Seq<u8>
    decreases n,
{
    if n < 10 {
        seq![(48 + n) as u8]
    } else {
        dec_digits(n / 10).push((48 + n % 10) as u8)
    }
}

/// Every byte of `dec_digits` is an ASCII digit.
pub proof fn lemma_dec_digits_ascii(n: nat)
    ensures
        forall|i: int| 0 <= i < dec_digits(n).len() ==> 48 <= #[trigger] dec_digits(n)[i] <= 57,
    decreases n,
{
    if n >= 10 {
        lemma_dec_digits_ascii(n / 10);
        let inner = dec_digits(n / 10);
        assert forall|i: int| 0 <= i < dec_digits(n).len() implies 48 <= #[trigger] dec_digits(
            n,
        )[i] <= 57 by {
            if i < inner.len() {
                assert(dec_digits(n)[i] == inner[i]);
            } else {
                assert(dec_digits(n)[i] == (48 + n % 10) as u8);
            }
        }
    }
}

/// A number below ten to the k renders in at most k digits.
pub proof fn lemma_dec_digits_len(n: nat, k: nat)
    requires
        k >= 1,
        n < pow10(k),
    ensures
        dec_digits(n).len() <= k,
    decreases k,
{
    if n >= 10 {
        if k == 1 {
            assert(pow10(0) == 1);
            assert(pow10(1) == 10 * pow10(0));
        } else {
            assert(pow10(k) == 10 * pow10((k - 1) as nat));
            assert(n / 10 < pow10((k - 1) as nat)) by (nonlinear_arith)
                requires
                    n < 10 * pow10((k - 1) as nat),
            ;
            lemma_dec_digits_len(n / 10, (k - 1) as nat);
        }
    }
}

/// Render a number in decimal.
pub fn format_u128(n: u128) -> (r: Vec<u8>)
    ensures
        r@ == dec_digits(n as nat),
    decreases n,
{
    if n < 10 {
        let mut v: Vec<u8> = Vec::new();
        v.push(48 + n as u8);
        proof {
            assert(v@ =~= dec_digits(n as nat));
        }
        v
    } else {
        let mut v = format_u128(n / 10);
        v.push(48 + (n % 10) as u8);
        proof {
            assert(v@ =~= dec_digits(n as nat));
        }
        v
    }
}

/// Whether every byte of the sequence is an ASCII decimal digit.
pub open spec fn is_dec_digits(s: Seq<u8>) -> bool {
    forall|i: int| 0 <= i < s.len() ==> 48 <= #[trigger] s[i] <= 57
}

/// Whether every byte of the sequence is the digit zero.
pub open spec fn all_zero_digits(s: Seq<u8>) -> bool {
    forall|i: int| 0 <= i < s.len() ==> #[trigger] s[i] == 48
}

/// The number denoted by a sequence of decimal digits (zero for the empty
/// sequence).
pub open spec fn digits_value(s: Seq<u8>) -> nat
    recommends
        is_dec_digits(s),
    decreases s.len(),
{
    if s.len() == 0 {
        0
    } else {
        digits_value(s.drop_last()) * 10 + (s.last() - 48) as nat
    }
}

/// A natural number clamped to the `u128` range.
pub open spec fn sat_u128(n: nat) -> u128 {
    if n <= u128::MAX as nat {
        n as u128
    } else {
        u128::MAX
    }
}

pub proof fn lemma_digits_value_step(s: Seq<u8>, i: int)
    requires
        0 <= i < s.len(),
    ensures
        digits_value(s.take(i + 1)) == digits_value(s.take(i)) * 10 + (s[i] - 48) as nat,
{
    assert(s.take(i + 1).drop_last() =~= s.take(i));
    assert(s.take(i + 1).last() == s[i]);
}

/// The denoted value is bounded by ten to the number of digits.
pub proof fn lemma_digits_value_bound(s: Seq<u8>)
    requires
        is_dec_digits(s),
    ensures
        digits_value(s) < pow10(s.len()),
    decreases s.len(),
{
    if s.len() == 0 {
    } else {
        assert(s.drop_last() =~= s.take(s.len() - 1));
        assert(is_dec_digits(s.drop_last()));
        lemma_digits_value_bound(s.drop_last());
        assert(pow10(s.len()) == 10 * pow10((s.len() - 1) as nat));
    }
}

/// Parse a digit sequence, clamping at the largest `u128`.
pub fn digits_value_saturating(s: &[u8]) -> (r: u128)
    requires
        is_dec_digits(s@),
    ensures
        r == sat_u128(digits_value(s@)),
{
    let mut acc: u128 = 0;
    let mut i: usize = 0;
    proof {
        assert(s@.take(0) =~= Seq::<u8>::empty());
    }
    while i < s.len()
        invariant
            is_dec_digits(s@),
            i <= s@.len(),
            acc == sat_u128(digits_value(s@.take(i as int))),
        decreases s@.len() - i,
    {
        let ghost oldv = digits_value(s@.take(i as int));
        proof {
            lemma_digits_value_step(s@, i as int);
        }
        let ghost newv = digits_value(s@.take(i as int + 1));
        let d = s[i] - 48;
        let next = match acc.checked_mul(10) {
            Some(m) => m.checked_add(d as u128),
            None => None,
        };
        acc = match next {
            Some(v) => {
                proof {
                    // the multiplication fit, so the running value was exact
                    assert(oldv <= u128::MAX as nat);
                    assert(newv == oldv * 10 + (s@[i as int] - 48) as nat);
                }
                v
            },
            None => {
                proof {
                    if oldv <= u128::MAX as nat {
                        assert(newv > u128::MAX as nat);
                    } else {
                        assert(newv >= oldv) by (nonlinear_arith)
                            requires
                                newv == oldv * 10 + (s@[i as int] - 48) as nat,
                        ;
                    }
                }
                u128::MAX
            },
        };
        i = i + 1;
    }
    proof {
        assert(s@.take(i as int) =~= s@);
    }
    acc
}

pub proof fn lemma_pow10_mono(a: nat, b: nat)
    requires
        a <= b,
    ensures
        pow10(a) <= pow10(b),
    decreases b,
{
    if a < b {
        lemma_pow10_mono(a, (b - 1) as nat);
        lemma_pow10_positive((b - 1) as nat);
        assert(pow10(b) == 10 * pow10((b - 1) as nat));
    }
}

pub proof fn lemma_pow10_add(a: nat, b: nat)
    ensures
        pow10(a + b) == pow10(a) * pow10(b),
    decreases a,
{
    if a == 0 {
        assert(pow10(0) == 1);
    } else {
        lemma_pow10_add((a - 1) as nat, b);
        assert(pow10(a + b) == 10 * pow10((a + b - 1) as nat));
        assert(10 * (pow10((a - 1) as nat) * pow10(b)) == (10 * pow10((a - 1) as nat)) * pow10(
            b,
        )) by (nonlinear_arith);
    }
}

/// Raise ten to the power k.
pub fn pow10_u128(k: usize) -> (r: u128)
    requires
        k <= 18,
    ensures
        r as nat == pow10(k as nat),
{
    let mut r: u128 = 1;
    let mut j: usize = 0;
    while j < k
        invariant
            j <= k <= 18,
            r as nat == pow10(j as nat),
        decreases k - j,
    {
        proof {
            lemma_pow10_mono(j as nat + 1, 18);
            lemma_pow10_18();
            assert(pow10(j as nat + 1) == 10 * pow10(j as nat));
        }
        r = r * 10;
        j = j + 1;
    }
    r
}

/// The index of the first `.` in the sequence, or its length if it has none.
pub open spec fn first_dot(s: Seq<u8>) -> int
    decreases s.len(),
{
    if s.len() == 0 {
        0
    } else if s[0] == 46 {
        0
    } else {
        1 + first_dot(s.skip(1))
    }
}

/// `first_dot` is characterized by: no dot before it, and a dot (or the end)
/// at it.
pub proof fn lemma_first_dot_at(s: Seq<u8>, d: int)
    requires
        0 <= d <= s.len(),
        forall|i: int| 0 <= i < d ==> s[i] != 46,
        d < s.len() ==> s[d] == 46,
    ensures
        first_dot(s) == d,
    decreases s.len(),
{
    if s.len() == 0 {
    } else if s[0] == 46 {
        assert(d == 0);
    } else {
        assert(d >= 1);
        assert forall|i: int| 0 <= i < d - 1 implies s.skip(1)[i] != 46 by {
            assert(s.skip(1)[i] == s[i + 1]);
        }
        if d - 1 < s.skip(1).len() {
            assert(s.skip(1)[d - 1] == s[d]);
        }
        lemma_first_dot_at(s.skip(1), d - 1);
    }
}

/// The amount text without its optional leading sign.
pub open spec fn amount_body(s: Seq<u8>) -> Seq<u8> {
    if s.len() > 0 && (s[0] == 43 || s[0] == 45) {
        s.skip(1)
    } else {
        s
    }
}

/// Whether the amount text carries a leading minus sign.
pub open spec fn amount_negative(s: Seq<u8>) -> bool {
    s.len() > 0 && s[0] == 45
}

/// The digits before the decimal point.
pub open spec fn amount_int_part(s: Seq<u8>) -> Seq<u8> {
    let b = amount_body(s);
    b.take(first_dot(b))
}

/// The digits after the decimal point (empty if there is none).
pub open spec fn amount_frac_part(s: Seq<u8>) -> Seq<u8> {
    let b = amount_body(s);
    if first_dot(b) < b.len() {
        b.skip(first_dot(b) + 1)
    } else {
        Seq::empty()
    }
}

/// A decimal number: an optional sign, digits, and at most one point, with
/// at least one digit in all.
pub open spec fn amount_well_formed(s: Seq<u8>) -> bool {
    is_dec_digits(amount_int_part(s)) && is_dec_digits(amount_frac_part(s)) && amount_int_part(
        s,
    ).len() + amount_frac_part(s).len() > 0
}

/// Whether the written value is exactly zero.
pub open spec fn amount_is_zero(s: Seq<u8>) -> bool {
    all_zero_digits(amount_int_part(s)) && all_zero_digits(amount_frac_part(s))
}

/// The first eighteen fraction digits scaled to wei; digits beyond the
/// eighteenth (below one wei) are dropped.
pub open spec fn frac_scaled(f: Seq<u8>) -> nat {
    let f18 = if f.len() > 18 {
        f.take(18)
    } else {
        f
    };
    digits_value(f18) * pow10((18 - f18.len()) as nat)
}

/// The written amount in wei.
pub open spec fn amount_wei(s: Seq<u8>) -> nat {
    digits_value(amount_int_part(s)) * pow10(18) + frac_scaled(amount_frac_part(s))
}

/// The outcome of reading an ether amount.
#[derive(Clone, Copy, Debug, PartialEq, Eq, Structural)]
pub enum ParsedAmount {
    /// Not a decimal number.
    Invalid,
    /// A well-formed number that is zero or negative.
    NotPositive,
    /// A positive amount in wei, clamped to the `u128` range.
    Wei(u128),
}

/// Read a decimal ether amount. The text may carry a sign and one decimal
/// point; the value is converted to wei, keeping fraction digits down to
/// one wei.
#[verifier::rlimit(60)]
pub fn parse_amount(s: &[u8]) -> (r: ParsedAmount)
    ensures
        r is Invalid <==> !amount_well_formed(s@),
        amount_well_formed(s@) ==> ((r is NotPositive) <==> (amount_negative(s@)
            || amount_is_zero(s@))),
        (amount_well_formed(s@) && !amount_negative(s@) && !amount_is_zero(s@)) ==> r
            == ParsedAmount::Wei(sat_u128(amount_wei(s@))),
{
    let start: usize = if s.len() > 0 && (s[0] == 43 || s[0] == 45) {
        1
    } else {
        0
    };
    let neg = s.len() > 0 && s[0] == 45;
    let body = vstd::slice::slice_to_vec(vstd::slice::slice_subrange(s, start, s.len()));
    proof {
        assert(body@ =~= amount_body(s@));
        assert(neg == amount_negative(s@));
    }
    // locate the decimal point
    let mut d: usize = 0;
    while d < body.len() && body[d] != 46
        invariant
            body@ == amount_body(s@),
            d <= body@.len(),
            forall|i: int| 0 <= i < d ==> body@[i] != 46,
        decreases body@.len() - d,
    {
        d = d + 1;
    }
    proof {
        lemma_first_dot_at(body@, d as int);
    }
    // the integer digits
    let mut i: usize = 0;
    while i < d
        invariant
            body@ == amount_body(s@),
            i <= d <= body@.len(),
            d as int == first_dot(body@),
            forall|j: int| 0 <= j < i ==> 48 <= #[trigger] body@[j] <= 57,
        decreases d - i,
    {
        if body[i] < 48 || body[i] > 57 {
            proof {
                assert(amount_int_part(s@)[i as int] == body@[i as int]);
            }
            return ParsedAmount::Invalid;
        }
        i = i + 1;
    }
    proof {
        assert(amount_int_part(s@) =~= body@.take(d as int));
        assert(is_dec_digits(amount_int_part(s@)));
    }
    // the fraction digits
    let fstart: usize = if d < body.len() {
        d + 1
    } else {
        body.len()
    };
    let mut j: usize = fstart;
    while j < body.len()
        invariant
            body@ == amount_body(s@),
            fstart <= j <= body@.len(),
            d <= body@.len(),
            d as int == first_dot(body@),
            fstart as int == if (d as int) < body@.len() {
                d + 1
            } else {
                body@.len() as int
            },
            forall|t: int| fstart <= t < j ==> 48 <= #[trigger] body@[t] <= 57,
        decreases body@.len() - j,
    {
        if body[j] < 48 || body[j] > 57 {
            proof {
                assert(amount_frac_part(s@)[j - fstart] == body@[j as int]);
            }
            return ParsedAmount::Invalid;
        }
        j = j + 1;
    }
    proof {
        if (d as int) < body@.len() {
            assert(amount_frac_part(s@) =~= body@.skip(d as int + 1));
        } else {
            assert(amount_frac_part(s@) =~= Seq::<u8>::empty());
        }
        assert(is_dec_digits(amount_frac_part(s@)));
    }
    if d == 0 && fstart >= body.len() {
        // no digit at all
        return ParsedAmount::Invalid;
    }
    proof {
        assert(amount_well_formed(s@));
    }
    // sign and zero
    let mut all_zero = true;
    let mut t: usize = 0;
    while t < body.len()
        invariant
            body@ == amount_body(s@),
            t <= body@.len(),
            d <= body@.len(),
            d as int == first_dot(body@),
            all_zero <==> (forall|u: int| 0 <= u < t && body@[u] != 46 ==> #[trigger] body@[u]
                == 48),
        decreases body@.len() - t,
    {
        if body[t] != 46 && body[t] != 48 {
            all_zero = false;
        }
        t = t + 1;
    }
    proof {
        if all_zero {
            assert(forall|u: int| 0 <= u < amount_int_part(s@).len()
                ==> #[trigger] amount_int_part(s@)[u] == 48);
            assert(forall|u: int| 0 <= u < amount_frac_part(s@).len()
                ==> amount_frac_part(s@)[u] == body@[u + first_dot(body@) + 1]);
            assert(all_zero_digits(amount_frac_part(s@)));
        } else {
            let u = choose|u: int| 0 <= u < body@.len() && body@[u] != 46 && body@[u] != 48;
            if u < d {
                assert(amount_int_part(s@)[u] == body@[u]);
                assert(!amount_is_zero(s@));
            } else {
                assert(u > d);
                assert(amount_frac_part(s@)[u - d - 1] == body@[u]);
                assert(!amount_is_zero(s@));
            }
        }
    }
    if neg || all_zero {
        return ParsedAmount::NotPositive;
    }
    // the value in wei
    let int_slice = vstd::slice::slice_subrange(body.as_slice(), 0, d);
    let iv = digits_value_saturating(int_slice);
    let fend: usize = if body.len() - fstart > 18 {
        fstart + 18
    } else {
        body.len()
    };
    let frac_slice = vstd::slice::slice_subrange(body.as_slice(), fstart, fend);
    proof {
        let f = amount_frac_part(s@);
        let f18 = if f.len() > 18 {
            f.take(18)
        } else {
            f
        };
        assert(frac_slice@ =~= f18);
        lemma_digits_value_bound(f18);
        lemma_pow10_mono(f18.len(), 18);
        lemma_pow10_18();
    }
    let fv = digits_value_saturating(frac_slice);
    let scale = pow10_u128(18 - frac_slice.len());
    let ghost f18len = frac_slice@.len();
    proof {
        lemma_pow10_add(f18len, (18 - f18len) as nat);
        lemma_pow10_positive((18 - f18len) as nat);
        assert(digits_value(frac_slice@) * (scale as nat) < pow10(f18len) * pow10(
            (18 - f18len) as nat,
        )) by (nonlinear_arith)
            requires
                digits_value(frac_slice@) < pow10(f18len),
                scale as nat == pow10((18 - f18len) as nat),
                pow10((18 - f18len) as nat) >= 1,
        ;
    }
    let fw = fv * scale;
    proof {
        assert(fw as nat == frac_scaled(amount_frac_part(s@)));
    }
    let ghost iv_spec = digits_value(amount_int_part(s@));
    let ghost total = amount_wei(s@);
    let wei = match iv.checked_mul(WEI_PER_ETH) {
        Some(m) => match m.checked_add(fw) {
            Some(v) => v,
            None => {
                proof {
                    assert(iv_spec <= u128::MAX as nat);
                    assert(total > u128::MAX as nat);
                }
                u128::MAX
            },
        },
        None => {
            proof {
                lemma_pow10_18();
                if iv_spec <= u128::MAX as nat {
                    assert(total > u128::MAX as nat);
                } else {
                    assert(total >= iv_spec * pow10(18)) by (nonlinear_arith)
                        requires
                            total == iv_spec * pow10(18) + frac_scaled(amount_frac_part(s@)),
                    ;
                    assert(iv_spec * pow10(18) >= iv_spec) by (nonlinear_arith)
                        requires
                            pow10(18) >= 1,
                            iv_spec >= 0,
                    ;
                }
            }
            u128::MAX
        },
    };
    proof {
        lemma_pow10_18();
        assert(wei == sat_u128(total));
    }
    ParsedAmount::Wei(wei)
}

/// The value of a byte sequence read as a big-endian number.
pub open spec fn be_value(s: Seq<u8>) -> nat
    decreases s.len(),
{
    if s.len() == 0 {
        0
    } else {
        be_value(s.drop_last()) * 256 + s.last() as nat
    }
}

/// Two hundred fifty-six to the power k.
pub open spec fn pow256(k: nat) -> nat
    decreases k,
{
    if k == 0 {
        1
    } else {
        256 * pow256((k - 1) as nat)
    }
}

pub proof fn lemma_pow256_values()
    ensures
        pow256(0) == 1,
        pow256(1) == 0x100,
        pow256(2) == 0x10000,
        pow256(3) == 0x1000000,
        pow256(4) == 0x100000000,
        pow256(5) == 0x10000000000,
        pow256(6) == 0x1000000000000,
        pow256(7) == 0x100000000000000,
{
    assert(pow256(0) == 1);
    assert(pow256(1) == 256 * pow256(0));
    assert(pow256(2) == 256 * pow256(1));
    assert(pow256(3) == 256 * pow256(2));
    assert(pow256(4) == 256 * pow256(3));
    assert(pow256(5) == 256 * pow256(4));
    assert(pow256(6) == 256 * pow256(5));
    assert(pow256(7) == 256 * pow256(6));
}

/// The eight bytes of a 64-bit value, most significant first.
pub open spec fn be_bytes8(x: u64) -> Seq<u8> {
    Seq::new(8, |i: int| ((x as nat / pow256((7 - i) as nat)) % 256) as u8)
}

/// Split a 64-bit value into its big-endian bytes.
pub fn u64_be_bytes(x: u64) -> (r: Vec<u8>)
    ensures
        r@ == be_bytes8(x),
{
    proof {
        lemma_pow256_values();
    }
    let mut r: Vec<u8> = Vec::new();
    let mut div: u64 = 0x100000000000000;
    let mut i: usize = 0;
    proof {
        assert(r@ =~= be_bytes8(x).take(0));
    }
    while i < 8
        invariant
            i <= 8,
            i < 8 ==> div as nat == pow256((7 - i) as nat),
            r@ =~= be_bytes8(x).take(i as int),
        decreases 8 - i,
    {
        proof {
            lemma_pow256_values();
        }
        r.push(((x / div) % 256) as u8);
        proof {
            assert(be_bytes8(x)[i as int] == ((x as nat / pow256((7 - i as int) as nat))
                % 256) as u8);
            assert(r@ =~= be_bytes8(x).take(i as int + 1));
        }
        if i < 7 {
            div = div / 256;
            proof {
                assert(pow256((7 - (i + 1) as int) as nat) == pow256(
                    (6 - i as int) as nat,
                ));
                assert(pow256((7 - i as int) as nat) == 256 * pow256((6 - i as int) as nat));
            }
        }
        i = i + 1;
    }
    proof {
        assert(r@ =~= be_bytes8(x));
    }
    r
}

/// Drop trailing zero digits.
pub open spec fn trim_trailing_zeros(s: Seq<u8>) -> Seq<u8>
    decreases s.len(),
{
    if s.len() > 0 && s.last() == 48 {
        trim_trailing_zeros(s.drop_last())
    } else {
        s
    }
}

/// A wei amount written in ether: the integer part, then the nonzero part
/// of the 18 fraction digits, if any.
pub open spec fn eth_decimal(wei: nat) -> Seq<u8> {
    let ip = dec_digits(wei / pow10(18));
    let fd = dec_digits(wei % pow10(18));
    let padded = Seq::new((18 - fd.len()) as nat, |i: int| 48u8) + fd;
    let f = trim_trailing_zeros(padded);
    if f.len() == 0 {
        ip
    } else {
        ip + seq![46u8] + f
    }
}

/// Render a wei amount in ether.
pub fn format_eth(wei: u128) -> (r: Vec<u8>)
    ensures
        r@ == eth_decimal(wei as nat),
{
    proof {
        lemma_pow10_18();
    }
    let mut out = format_u128(wei / WEI_PER_ETH);
    let fd = format_u128(wei % WEI_PER_ETH);
    proof {
        lemma_dec_digits_len((wei % WEI_PER_ETH) as nat, 18);
    }
    let ghost padded = Seq::new((18 - fd@.len()) as nat, |i: int| 48u8) + fd@;
    let mut f: Vec<u8> = Vec::new();
    let pad = 18 - fd.len();
    let mut z: usize = 0;
    while z < pad
        invariant
            z <= pad,
            f@ =~= Seq::new(z as nat, |i: int| 48u8),
        decreases pad - z,
    {
        f.push(48);
        proof {
            assert(f@ =~= Seq::new(z as nat + 1, |i: int| 48u8));
        }
        z = z + 1;
    }
    let mut fd2 = fd;
    f.append(&mut fd2);
    proof {
        assert(f@ =~= padded);
    }
    while f.len() > 0 && f[f.len() - 1] == 48
        invariant
            trim_trailing_zeros(padded) == trim_trailing_zeros(f@),
        decreases f@.len(),
    {
        proof {
            assert(f@.drop_last() =~= f@.take(f@.len() - 1));
        }
        f.pop();
    }
    proof {
        assert(trim_trailing_zeros(f@) == f@);
    }
    if f.len() > 0 {
        out.push(46);
        out.append(&mut f);
        proof {
            assert(out@ =~= eth_decimal(wei as nat));
        }
        out
    } else {
        proof {
            assert(out@ =~= eth_decimal(wei as nat));
        }
        out
    }
}

} // verus!

