//! Numbers in decimal, as ASCII digits.

use vstd::prelude::*;

verus! {

/// Ten to the power `p`.
pub open spec fn pow10(p: nat) -> nat
    decreases p,
{
    if p == 0 {
        1
    } else {
        10 * pow10((p - 1) as nat)
    }
}

/// The ASCII digit of a value below ten.
pub open spec fn digit(d: nat) -> u8 {
    (0x30 + d) as u8
}

/// The decimal digits of `n`, the most significant first, with no leading zero.
pub open spec fn decimal(n: nat) -> Seq<u8>
    decreases n,
{
    if n < 10 {
        seq![digit(n)]
    } else {
        decimal(n / 10).push(digit(n % 10))
    }
}

/// The last `width` decimal digits of `n`, the most significant first.
pub open spec fn decimal_padded(n: nat, width: nat) -> Seq<u8>
    decreases width,
{
    if width == 0 {
        Seq::empty()
    } else {
        decimal_padded(n / 10, (width - 1) as nat).push(digit(n % 10))
    }
}

/// Whether every byte of `s` is an ASCII digit.
pub open spec fn all_digits(s: Seq<u8>) -> bool {
    forall|i: int| 0 <= i < s.len() ==> 0x30 <= #[trigger] s[i] <= 0x39
}

/// The number that the decimal digits `s` spell.
pub open spec fn digits_value(s: Seq<u8>) -> nat
    decreases s.len(),
{
    if s.len() == 0 {
        0
    } else {
        digits_value(s.drop_last()) * 10 + (s.last() - 0x30) as nat
    }
}

/// Whether `b` is an ASCII digit.
pub open spec fn is_digit(b: u8) -> bool {
    0x30 <= b <= 0x39
}

/// The end of the run of ASCII digits that starts at `from` in `s`: the
/// first place from there on that holds no digit.
pub open spec fn digits_end(s: Seq<u8>, from: int) -> int
    decreases s.len() - from,
{
    if 0 <= from < s.len() && is_digit(s[from]) {
        digits_end(s, from + 1)
    } else {
        from
    }
}

/// The number that the run of digits from `from` on spells, where it fits.
pub open spec fn number_at(s: Seq<u8>, from: int) -> Option<usize> {
    let value = digits_value(s.subrange(from, digits_end(s, from)));
    if value <= usize::MAX {
        Some(value as usize)
    } else {
        None
    }
}

/// Read the run of ASCII digits that starts at `from`: where it ends, and
/// the number it spells if that fits.
pub(crate) fn read_number(s: &[u8], from: usize) -> (r: (usize, Option<usize>))
    requires
        from <= s@.len(),
    ensures
        r.0 == digits_end(s@, from as int),
        from <= r.0 <= s@.len(),
        r.1 == number_at(s@, from as int),
{
    let mut i: usize = from;
    let mut value: usize = 0;
    let mut fits: bool = true;
    assert(s@.subrange(from as int, from as int) =~= Seq::<u8>::empty());
    while i < s.len() && 0x30 <= s[i] && s[i] <= 0x39
        invariant
            from <= i <= s@.len(),
            digits_end(s@, from as int) == digits_end(s@, i as int),
            all_digits(s@.subrange(from as int, i as int)),
            fits ==> value == digits_value(s@.subrange(from as int, i as int)),
            !fits ==> digits_value(s@.subrange(from as int, i as int)) > usize::MAX,
        decreases s@.len() - i,
    {
        let d: usize = (s[i] - 0x30) as usize;
        proof {
            let before = s@.subrange(from as int, i as int);
            let after = s@.subrange(from as int, i + 1);
            assert(after.drop_last() =~= before);
            assert(after.last() == s@[i as int]);
            assert(digits_value(after) == digits_value(before) * 10 + d);
        }
        if fits && value <= (usize::MAX - d) / 10 {
            value = value * 10 + d;
        } else {
            fits = false;
        }
        i += 1;
    }
    if fits {
        (i, Some(value))
    } else {
        (i, None)
    }
}

/// Append the decimal digits of `n` to `out`.
pub(crate) fn push_decimal(out: &mut Vec<u8>, n: u128)
    ensures
        final(out)@ == old(out)@ + decimal(n as nat),
    decreases n,
{
    if n >= 10 {
        push_decimal(out, n / 10);
    }
    out.push(0x30 + (n % 10) as u8);
    assert(out@ =~= old(out)@ + decimal(n as nat));
}

/// Every byte of a number in decimal is an ASCII digit.
pub proof fn lemma_decimal_digits(n: nat)
    ensures
        all_digits(decimal(n)),
        decimal(n).len() >= 1,
    decreases n,
{
    if n >= 10 {
        lemma_decimal_digits(n / 10);
    }
}

/// Decimal digits are the padded form of the number they spell, which is
/// below ten to the power of their count.
pub proof fn lemma_digits_are_padded(s: Seq<u8>)
    requires
        all_digits(s),
    ensures
        digits_value(s) < pow10(s.len()),
        s == decimal_padded(digits_value(s), s.len()),
    decreases s.len(),
{
    if s.len() > 0 {
        let head = s.drop_last();
        lemma_digits_are_padded(head);
        let d = (s.last() - 0x30) as nat;
        let v = digits_value(head) * 10 + d;
        assert(v / 10 == digits_value(head) && v % 10 == d);
        assert(digit(d) == s.last());
        assert(s =~= head.push(s.last()));
    }
}

/// Add one to the number that the decimal digits in `digits` spell, within
/// their count: the result tells whether the number went beyond it, and
/// the digits are then all zero.
pub(crate) fn increment(digits: &mut Vec<u8>) -> (carry: bool)
    requires
        all_digits(old(digits)@),
    ensures
        final(digits)@.len() == old(digits)@.len(),
        all_digits(final(digits)@),
        carry == (digits_value(old(digits)@) + 1 == pow10(old(digits)@.len())),
        digits_value(final(digits)@) == (if carry {
            0
        } else {
            digits_value(old(digits)@) + 1
        }),
{
    let n: usize = digits.len();
    let mut i: usize = n;
    while i > 0 && digits[i - 1] == 0x39
        invariant
            i <= n,
            n == digits@.len(),
            n == old(digits)@.len(),
            all_digits(old(digits)@),
            forall|j: int| 0 <= j < i ==> digits@[j] == old(digits)@[j],
            forall|j: int| i <= j < n ==> old(digits)@[j] == 0x39 && digits@[j] == 0x30,
        decreases i,
    {
        digits[i - 1] = 0x30;
        i -= 1;
    }
    if i > 0 {
        let d: u8 = digits[i - 1];
        assert(0x30 <= old(digits)@[i - 1] <= 0x39);
        digits[i - 1] = d + 1;
        proof {
            lemma_increment(old(digits)@, digits@, (i - 1) as int);
            lemma_digits_are_padded(digits@);
        }
        false
    } else {
        proof {
            lemma_nines(old(digits)@);
            lemma_zeros(digits@);
        }
        true
    }
}

/// Digits that differ in one place by one, nines after it in the one and
/// zeros in the other, spell numbers that differ by one.
proof fn lemma_increment(before: Seq<u8>, after: Seq<u8>, pivot: int)
    requires
        all_digits(before),
        before.len() == after.len(),
        0 <= pivot < before.len(),
        before[pivot] < 0x39,
        after[pivot] == before[pivot] + 1,
        forall|j: int| 0 <= j < pivot ==> after[j] == before[j],
        forall|j: int| pivot < j < before.len() ==> before[j] == 0x39 && after[j] == 0x30,
    ensures
        all_digits(after),
        digits_value(after) == digits_value(before) + 1,
    decreases before.len(),
{
    assert(0x30 <= before[pivot] <= 0x39);
    if pivot == before.len() - 1 {
        assert(after.drop_last() =~= before.drop_last());
    } else {
        lemma_increment(before.drop_last(), after.drop_last(), pivot);
    }
}

/// Nines all through spell the number before the power of ten of their count.
proof fn lemma_nines(s: Seq<u8>)
    requires
        forall|j: int| 0 <= j < s.len() ==> s[j] == 0x39,
    ensures
        digits_value(s) + 1 == pow10(s.len()),
    decreases s.len(),
{
    if s.len() > 0 {
        lemma_nines(s.drop_last());
    }
}

/// Zeros all through spell zero.
proof fn lemma_zeros(s: Seq<u8>)
    requires
        forall|j: int| 0 <= j < s.len() ==> s[j] == 0x30,
    ensures
        all_digits(s),
        digits_value(s) == 0,
    decreases s.len(),
{
    if s.len() > 0 {
        lemma_zeros(s.drop_last());
    }
}

} // verus!
