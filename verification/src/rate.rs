//! Hash rates in a form for people: a number, a metric prefix and `h/s`.

use crate::decimal::{
    all_digits, decimal, decimal_padded, digits_value, increment, lemma_decimal_digits,
    lemma_digits_are_padded, pow10, push_decimal,
};
use crate::text::{as_text, lemma_ascii_text, text_of};
use vstd::arithmetic::div_mod::{
    lemma_fundamental_div_mod, lemma_fundamental_div_mod_converse, lemma_mod_pos_bound,
};
use vstd::prelude::*;

verus! {

/// A span of time: whole seconds, and nanoseconds on top of them.
#[derive(Debug, Clone, Copy, PartialEq, Eq)]
pub struct Elapsed {
    pub secs: u64,
    pub nanos: u32,
}

impl Elapsed {
    /// A span of whole seconds.
    pub fn from_secs(secs: u64) -> (elapsed: Elapsed)
        ensures
            elapsed.secs == secs,
            elapsed.nanos == 0,
    {
        Elapsed { secs, nanos: 0 }
    }

    /// The span in nanoseconds.
    pub open spec fn total_nanos(self) -> nat {
        (self.secs as nat) * 1_000_000_000 + self.nanos as nat
    }
}

/// A type representing a hash rate, which can be printed in a
/// human-readable format.
#[derive(Debug, Clone, Copy)]
pub struct HashRate {
    pub hashes: usize,
    pub elapsed: Elapsed,
}

/// The number of hashes per second that one unit of magnitude `m` stands
/// for: a thousand to the power `m`, up to the fourth.
pub open spec fn unit_of(m: nat) -> nat {
    if m == 0 {
        1
    } else if m == 1 {
        1_000
    } else if m == 2 {
        1_000_000
    } else if m == 3 {
        1_000_000_000
    } else {
        1_000_000_000_000
    }
}

/// The metric prefix of magnitude `m`: none, `k`, `M`, `G` or `T`.
pub open spec fn prefix_of(m: nat) -> Seq<u8> {
    if m == 0 {
        Seq::empty()
    } else if m == 1 {
        seq![0x6bu8]
    } else if m == 2 {
        seq![0x4du8]
    } else if m == 3 {
        seq![0x47u8]
    } else {
        seq![0x54u8]
    }
}

/// The magnitude of the rate `num / den`: the largest, up to four, in whose
/// unit the rate is at least one, and zero where there is none.
pub open spec fn magnitude(num: nat, den: nat) -> nat {
    if num >= den * unit_of(4) {
        4
    } else if num >= den * unit_of(3) {
        3
    } else if num >= den * unit_of(2) {
        2
    } else if num >= den * unit_of(1) {
        1
    } else {
        0
    }
}

/// The whole number nearest to `n / d`; of two equally near, the even one.
pub open spec fn rounded(n: nat, d: nat) -> nat {
    let q = n / d;
    let r = n % d;
    if 2 * r > d || (2 * r == d && q % 2 == 1) {
        q + 1
    } else {
        q
    }
}

/// The number `scaled / 10^precision` in decimal, with `precision` digits
/// after the point, and no point where there are none.
pub open spec fn fixed_point(scaled: nat, precision: nat) -> Seq<u8> {
    if precision == 0 {
        decimal(scaled)
    } else {
        decimal(scaled / pow10(precision)) + seq![0x2eu8] + decimal_padded(
            scaled % pow10(precision),
            precision,
        )
    }
}

/// The text of a rate of `hashes` in `nanos` nanoseconds, in ASCII: the
/// hashes per second in the unit of their magnitude, rounded to `precision`
/// digits after the point, a space, the prefix, and `h/s`. Over no time at
/// all the rate is `inf Th/s`, and that of no hashes `NaN h/s`.
pub open spec fn rate_text(hashes: nat, nanos: nat, precision: nat) -> Seq<u8> {
    let num = hashes * 1_000_000_000;
    if nanos == 0 {
        if hashes == 0 {
            seq![0x4eu8, 0x61u8, 0x4eu8, 0x20u8, 0x68u8, 0x2fu8, 0x73u8]
        } else {
            seq![0x69u8, 0x6eu8, 0x66u8, 0x20u8, 0x54u8, 0x68u8, 0x2fu8, 0x73u8]
        }
    } else {
        let m = magnitude(num, nanos);
        fixed_point(rounded(num * pow10(precision), nanos * unit_of(m)), precision) + seq![0x20u8]
            + prefix_of(m) + seq![0x68u8, 0x2fu8, 0x73u8]
    }
}

impl HashRate {
    /// The rate as text, with `precision` digits after the point.
    pub fn format(&self, precision: usize) -> (s: String)
        ensures
            s@ == text_of(
                rate_text(self.hashes as nat, self.elapsed.total_nanos(), precision as nat),
            ),
    {
        let bytes = self.format_ascii(precision);
        proof {
            lemma_rate_text_ascii(
                self.hashes as nat,
                self.elapsed.total_nanos(),
                precision as nat,
            );
            lemma_ascii_text(bytes@);
        }
        as_text(bytes.as_slice()).to_owned()
    }

    /// The rate as text, with two digits after the point.
    pub fn to_string(&self) -> (s: String)
        ensures
            s@ == text_of(rate_text(self.hashes as nat, self.elapsed.total_nanos(), 2)),
    {
        self.format(2)
    }

    /// The rate as text in ASCII, with `precision` digits after the point.
    pub fn format_ascii(&self, precision: usize) -> (out: Vec<u8>)
        ensures
            out@ == rate_text(self.hashes as nat, self.elapsed.total_nanos(), precision as nat),
    {
        let num: u128 = (self.hashes as u128) * 1_000_000_000;
        let den: u128 = (self.elapsed.secs as u128) * 1_000_000_000 + (self.elapsed.nanos as u128);
        let mut out: Vec<u8> = Vec::new();
        if den == 0 {
            if self.hashes == 0 {
                out.push(0x4e);
                out.push(0x61);
                out.push(0x4e);
                out.push(0x20);
            } else {
                out.push(0x69);
                out.push(0x6e);
                out.push(0x66);
                out.push(0x20);
                out.push(0x54);
            }
            out.push(0x68);
            out.push(0x2f);
            out.push(0x73);
            assert(out@ =~= rate_text(self.hashes as nat, 0, precision as nat));
            return out;
        }
        let (mag, d) = split_unit(num, den);
        let (whole, frac, rest) = long_division(num, d, precision);
        let ghost scaled: nat = (num as nat) * pow10(precision as nat);
        let (ip, mut frac) = round_half_even(whole, frac, rest, d, Ghost(scaled));
        let ghost q = rounded(scaled, d as nat);
        proof {
            lemma_digits_are_padded(frac@);
            assert(frac@ == decimal_padded(q % pow10(precision as nat), precision as nat));
            if precision == 0 {
                assert(pow10(0) == 1);
                assert(ip == q);
            }
        }
        push_fixed_point(&mut out, ip, &mut frac);
        assert(out@ =~= fixed_point(q, precision as nat));
        push_unit(&mut out, mag);
        assert(num as nat == (self.hashes as nat) * 1_000_000_000);
        assert(den as nat == self.elapsed.total_nanos());
        assert(out@ =~= rate_text(
            self.hashes as nat,
            self.elapsed.total_nanos(),
            precision as nat,
        ));
        out
    }
}

/// Append a number in decimal: its whole part and, where there are any,
/// a point and the digits after it.
fn push_fixed_point(out: &mut Vec<u8>, whole: u128, frac: &mut Vec<u8>)
    ensures
        final(out)@ == old(out)@ + (if old(frac)@.len() == 0 {
            decimal(whole as nat)
        } else {
            decimal(whole as nat) + seq![0x2eu8] + old(frac)@
        }),
{
    let ghost digits = frac@;
    push_decimal(out, whole);
    if frac.len() > 0 {
        out.push(0x2e);
        out.append(frac);
        assert(out@ =~= old(out)@ + (decimal(whole as nat) + seq![0x2eu8] + digits));
    }
}

/// Append a space, the prefix of the magnitude `mag`, and `h/s`.
fn push_unit(out: &mut Vec<u8>, mag: u8)
    ensures
        final(out)@ == old(out)@ + seq![0x20u8] + prefix_of(mag as nat) + seq![
            0x68u8,
            0x2fu8,
            0x73u8,
        ],
{
    out.push(0x20);
    if mag >= 4 {
        out.push(0x54);
    } else if mag == 3 {
        out.push(0x47);
    } else if mag == 2 {
        out.push(0x4d);
    } else if mag == 1 {
        out.push(0x6b);
    }
    out.push(0x68);
    out.push(0x2f);
    out.push(0x73);
    assert(out@ =~= old(out)@ + seq![0x20u8] + prefix_of(mag as nat) + seq![
        0x68u8,
        0x2fu8,
        0x73u8,
    ]);
}

/// Round a quotient given by its whole part, its digits after the point
/// and what is left of the dividend: to the nearest, and of two equally
/// near to the even one.
fn round_half_even(
    whole: u128,
    frac: Vec<u8>,
    rest: u128,
    d: u128,
    Ghost(scaled): Ghost<nat>,
) -> (r: (u128, Vec<u8>))
    requires
        all_digits(frac@),
        rest < d < 0x8000_0000_0000_0000_0000_0000,
        whole < 0x8000_0000_0000_0000_0000_0000,
        scaled == (whole * pow10(frac@.len()) + digits_value(frac@)) * d + rest,
    ensures
        r.1@.len() == frac@.len(),
        all_digits(r.1@),
        r.0 == rounded(scaled, d as nat) / pow10(frac@.len()),
        digits_value(r.1@) == rounded(scaled, d as nat) % pow10(frac@.len()),
{
    let up: bool = rounds_up(whole, &frac, rest, d);
    let ghost p = pow10(frac@.len());
    let ghost floor: nat = (whole as nat) * p + digits_value(frac@);
    proof {
        lemma_fundamental_div_mod_converse(scaled as int, d as int, floor as int, rest as int);
        lemma_digits_are_padded(frac@);
        lemma_pow10_positive(frac@.len());
    }
    let mut ip: u128 = whole;
    let mut digits: Vec<u8> = frac;
    if up {
        let carry = increment(&mut digits);
        if carry {
            ip = whole + 1;
        }
    }
    proof {
        lemma_digits_are_padded(digits@);
        lemma_parts(
            rounded(scaled, d as nat),
            p,
            whole as nat,
            floor,
            up,
            ip as nat,
            digits_value(digits@),
        );
    }
    (ip, digits)
}

/// The magnitude of the rate `num / den`, and the divisor that turns `num`
/// into a number of units of that magnitude.
fn split_unit(num: u128, den: u128) -> (r: (u8, u128))
    requires
        0 < den < 0x8000_0000_0000_0000_0000_0000,
        num < 0x8000_0000_0000_0000_0000_0000,
    ensures
        r.0 == magnitude(num as nat, den as nat),
        r.1 == den * unit_of(r.0 as nat),
        0 < r.1 < 0x8000_0000_0000_0000_0000_0000,
{
    let whole: u128 = num / den;
    let unit: u128 = if whole >= 1_000_000_000_000 {
        1_000_000_000_000
    } else if whole >= 1_000_000_000 {
        1_000_000_000
    } else if whole >= 1_000_000 {
        1_000_000
    } else if whole >= 1_000 {
        1_000
    } else {
        1
    };
    let mag: u8 = if whole >= 1_000_000_000_000 {
        4
    } else if whole >= 1_000_000_000 {
        3
    } else if whole >= 1_000_000 {
        2
    } else if whole >= 1_000 {
        1
    } else {
        0
    };
    proof {
        lemma_magnitude(num as nat, den as nat);
        lemma_fundamental_div_mod(num as int, den as int);
        lemma_mod_pos_bound(num as int, den as int);
        if unit > 1 {
            assert(den * unit <= num) by (nonlinear_arith)
                requires
                    num == den * whole + (num as int) % (den as int),
                    (num as int) % (den as int) >= 0,
                    unit <= whole,
                    den > 0,
            ;
        }
        assert(den * unit > 0) by (nonlinear_arith)
            requires
                den > 0,
                unit > 0,
        ;
        assert(unit == 1 ==> den * unit == den) by (nonlinear_arith);
    }
    (mag, den * unit)
}

/// Divide `num` by `d` in decimal: the whole part, `precision` digits after
/// the point, and what is left of the dividend after them.
fn long_division(num: u128, d: u128, precision: usize) -> (r: (u128, Vec<u8>, u128))
    requires
        0 < d < 0x8000_0000_0000_0000_0000_0000,
    ensures
        r.0 <= num,
        r.1@.len() == precision,
        all_digits(r.1@),
        r.2 < d,
        num * pow10(precision as nat) == (r.0 * pow10(precision as nat) + digits_value(r.1@)) * d
            + r.2,
{
    let whole: u128 = num / d;
    let mut rest: u128 = num % d;
    let mut frac: Vec<u8> = Vec::new();
    let ghost mut p: nat = 1;
    proof {
        lemma_fundamental_div_mod(num as int, d as int);
        lemma_mod_pos_bound(num as int, d as int);
        assert(num * p == (whole * p + 0) * d + rest) by (nonlinear_arith)
            requires
                p == 1,
                num == d * whole + rest,
        ;
        assert(whole <= num) by (nonlinear_arith)
            requires
                num == d * whole + rest,
                d > 0,
                rest >= 0,
                whole >= 0,
        ;
    }
    let mut k: usize = 0;
    while k < precision
        invariant
            k <= precision,
            0 < d < 0x8000_0000_0000_0000_0000_0000,
            rest < d,
            whole <= num,
            frac@.len() == k,
            all_digits(frac@),
            p == pow10(k as nat),
            num * p == (whole * p + digits_value(frac@)) * d + rest,
        decreases precision - k,
    {
        let t: u128 = rest * 10;
        let q: u128 = t / d;
        let next: u128 = t % d;
        let ghost f = digits_value(frac@);
        proof {
            lemma_fundamental_div_mod(t as int, d as int);
            lemma_mod_pos_bound(t as int, d as int);
            assert(q < 10) by (nonlinear_arith)
                requires
                    t == d * q + next,
                    t < 10 * d,
                    next >= 0,
                    d > 0,
            ;
            assert(num * (p * 10) == (whole * (p * 10) + (f * 10 + q)) * d + next)
                by (nonlinear_arith)
                requires
                    num * p == (whole * p + f) * d + rest,
                    rest * 10 == d * q + next,
            ;
        }
        let ghost before = frac@;
        frac.push(0x30 + q as u8);
        proof {
            assert(frac@.drop_last() =~= before);
            assert(digits_value(frac@) == f * 10 + q);
            p = p * 10;
        }
        rest = next;
        k += 1;
    }
    (whole, frac, rest)
}

/// Whether a quotient rounds up: what is left is more than half the
/// divisor, or just half of it after an odd last digit.
fn rounds_up(whole: u128, frac: &Vec<u8>, rest: u128, d: u128) -> (up: bool)
    requires
        all_digits(frac@),
        rest < d < 0x8000_0000_0000_0000_0000_0000,
    ensures
        up == (2 * rest > d || (2 * rest == d && (whole * pow10(frac@.len()) + digits_value(
            frac@,
        )) % 2 == 1)),
{
    let n: usize = frac.len();
    let odd: bool = if n == 0 {
        whole % 2 == 1
    } else {
        frac[n - 1] % 2 == 1
    };
    proof {
        let p = pow10(n as nat);
        let f = digits_value(frac@);
        if n == 0 {
            assert(whole * p + f == whole) by (nonlinear_arith)
                requires
                    p == 1,
                    f == 0,
            ;
        } else {
            let half = pow10((n - 1) as nat);
            let head = digits_value(frac@.drop_last());
            assert(whole * p + f == 10 * (whole * half + head) + (frac@.last() - 0x30))
                by (nonlinear_arith)
                requires
                    p == 10 * half,
                    f == head * 10 + (frac@.last() - 0x30),
            ;
            assert(0x30 <= frac@[n - 1] <= 0x39);
        }
    }
    rest * 2 > d || (rest * 2 == d && odd)
}

/// The parts of a rounded quotient: where the digits after the point went
/// beyond their count, the whole part is one more and they are zero.
proof fn lemma_parts(q: nat, p: nat, whole: nat, floor: nat, up: bool, ip: nat, rest: nat)
    requires
        p > 0,
        floor >= whole * p,
        floor - whole * p < p,
        q == floor + (if up {
            1nat
        } else {
            0nat
        }),
        rest < p,
        (ip == whole && rest == floor - whole * p + (if up {
            1nat
        } else {
            0nat
        })) || (ip == whole + 1 && rest == 0 && floor - whole * p + 1 == p && up),
    ensures
        q / p == ip,
        q % p == rest,
{
    assert(q == ip * p + rest) by (nonlinear_arith)
        requires
            q == floor + (if up {
                1nat
            } else {
                0nat
            }),
            (ip == whole && rest == floor - whole * p + (if up {
                1nat
            } else {
                0nat
            })) || (ip == whole + 1 && rest == 0 && floor - whole * p + 1 == p && up),
    ;
    lemma_fundamental_div_mod_converse(q as int, p as int, ip as int, rest as int);
}

/// Ten to any power is positive.
pub proof fn lemma_pow10_positive(p: nat)
    ensures
        pow10(p) > 0,
    decreases p,
{
    if p > 0 {
        lemma_pow10_positive((p - 1) as nat);
    }
}

/// The magnitude of a rate, read from its whole part: the rate is at least
/// a number of units exactly where its whole part is.
pub proof fn lemma_magnitude(num: nat, den: nat)
    requires
        den > 0,
    ensures
        magnitude(num, den) == (if num / den >= 1_000_000_000_000 {
            4nat
        } else if num / den >= 1_000_000_000 {
            3nat
        } else if num / den >= 1_000_000 {
            2nat
        } else if num / den >= 1_000 {
            1nat
        } else {
            0nat
        }),
{
    lemma_at_least(num, den, 1_000_000_000_000);
    lemma_at_least(num, den, 1_000_000_000);
    lemma_at_least(num, den, 1_000_000);
    lemma_at_least(num, den, 1_000);
}

/// A quotient is at least `c` exactly where the dividend is at least `c`
/// times the divisor.
proof fn lemma_at_least(num: nat, den: nat, c: nat)
    requires
        den > 0,
    ensures
        (num / den >= c) == (num >= den * c),
{
    lemma_fundamental_div_mod(num as int, den as int);
    lemma_mod_pos_bound(num as int, den as int);
    let q = num / den;
    let r = num % den;
    if q >= c {
        assert(num >= den * c) by (nonlinear_arith)
            requires
                num == den * q + r,
                r >= 0,
                q >= c,
                den > 0,
        ;
    } else {
        assert(num < den * c) by (nonlinear_arith)
            requires
                num == den * q + r,
                r < den,
                q + 1 <= c,
                den > 0,
        ;
    }
}

/// Over one second, a rate of at least one unit of a magnitude and less
/// than one of the next has that magnitude; the fourth has no next.
pub proof fn lemma_magnitude_table(hashes: nat, m: nat)
    requires
        m <= 4,
        hashes >= unit_of(m),
        m < 4 ==> hashes < unit_of(m + 1),
    ensures
        magnitude(hashes * 1_000_000_000, 1_000_000_000) == m,
{
}

/// A whole number `k` of units of the magnitude `m` in one second, `k`
/// below a thousand, is shown as `k` with zeros after the point, and the
/// prefix of `m`: of `h/s`, `kh/s`, `Mh/s`, `Gh/s` and `Th/s` the one at
/// the place `m`.
pub proof fn lemma_round_rate(k: nat, m: nat, precision: nat)
    requires
        1 <= k < 1000,
        m <= 4,
    ensures
        rate_text(k * unit_of(m), 1_000_000_000, precision) == decimal(k) + (if precision == 0 {
            Seq::<u8>::empty()
        } else {
            seq![0x2eu8] + Seq::new(precision, |i: int| 0x30u8)
        }) + seq![0x20u8] + prefix_of(m) + seq![0x68u8, 0x2fu8, 0x73u8],
{
    let hashes = k * unit_of(m);
    let num = hashes * 1_000_000_000;
    let p = pow10(precision);
    let d = 1_000_000_000 * unit_of(m);
    assert(hashes >= unit_of(m) && hashes < 1000 * unit_of(m)) by (nonlinear_arith)
        requires
            hashes == k * unit_of(m),
            1 <= k < 1000,
            unit_of(m) > 0,
    ;
    lemma_magnitude_table(hashes, m);
    lemma_pow10_positive(precision);
    assert(num * p == (k * p) * d + 0) by (nonlinear_arith)
        requires
            num == k * unit_of(m) * 1_000_000_000,
            d == 1_000_000_000 * unit_of(m),
    ;
    lemma_fundamental_div_mod_converse((num * p) as int, d as int, (k * p) as int, 0);
    assert(rounded(num * p, d) == k * p);
    assert((k * p) == k * p + 0);
    lemma_fundamental_div_mod_converse((k * p) as int, p as int, k as int, 0);
    lemma_padded_zero(precision);
    if precision == 0 {
        assert(k * p == k) by (nonlinear_arith)
            requires
                p == 1,
        ;
    }
}

/// Zero, padded, is zeros all through.
pub proof fn lemma_padded_zero(width: nat)
    ensures
        decimal_padded(0, width) == Seq::new(width, |i: int| 0x30u8),
    decreases width,
{
    if width > 0 {
        lemma_padded_zero((width - 1) as nat);
        assert(decimal_padded(0, width) =~= Seq::new(width, |i: int| 0x30u8));
    } else {
        assert(decimal_padded(0, width) =~= Seq::new(width, |i: int| 0x30u8));
    }
}

/// Every byte of the text of a rate is ASCII.
pub proof fn lemma_rate_text_ascii(hashes: nat, nanos: nat, precision: nat)
    ensures
        forall|i: int|
            0 <= i < rate_text(hashes, nanos, precision).len() ==> rate_text(
                hashes,
                nanos,
                precision,
            )[i] < 0x80,
{
    if nanos != 0 {
        let num = hashes * 1_000_000_000;
        let m = magnitude(num, nanos);
        let q = rounded(num * pow10(precision), nanos * unit_of(m));
        lemma_decimal_digits(q);
        lemma_decimal_digits(q / pow10(precision));
        lemma_padded_digits(q % pow10(precision), precision);
    }
}

/// Every byte of a padded number is an ASCII digit, and there are as many
/// as the width asks.
pub proof fn lemma_padded_digits(n: nat, width: nat)
    ensures
        all_digits(decimal_padded(n, width)),
        decimal_padded(n, width).len() == width,
    decreases width,
{
    if width > 0 {
        lemma_padded_digits(n / 10, (width - 1) as nat);
    }
}

} // verus!
