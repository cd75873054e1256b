//! Decimal numerals of numbers too large for a machine word.
use vstd::prelude::*;

use crate::text;
use crate::text::digit_text;

verus! {

/// The number that digits stand for, the least significant first.
pub open spec fn digits_value(digits: Seq<u8>) -> nat
    decreases digits.len(),
{
    if digits.len() == 0 {
        0
    } else {
        digits_value(digits.drop_last()) + digits.last() as nat * pow10(digits.len() - 1)
    }
}

pub open spec fn pow10(n: int) -> nat
    decreases n,
{
    if n <= 0 {
        1
    } else {
        10 * pow10(n - 1)
    }
}

pub open spec fn pow2(n: nat) -> nat
    decreases n,
{
    if n == 0 {
        1
    } else {
        2 * pow2((n - 1) as nat)
    }
}

/// Decimal digits without a leading zero.
pub open spec fn canonical(digits: Seq<u8>) -> bool {
    &&& digits.len() > 0
    &&& forall|i: int| 0 <= i < digits.len() ==> #[trigger] digits[i] < 10
    &&& digits.len() > 1 ==> digits.last() > 0
}

proof fn lemma_pow10_positive(n: int)
    ensures
        pow10(n) > 0,
    decreases n,
{
    if n > 0 {
        lemma_pow10_positive(n - 1);
    }
}

/// The least significant digit is the remainder by ten, the others are the
/// quotient.
proof fn lemma_lowest_digit(digits: Seq<u8>)
    requires
        digits.len() > 0,
    ensures
        digits_value(digits) == digits[0] + 10 * digits_value(digits.skip(1)),
    decreases digits.len(),
{
    if digits.len() == 1 {
        assert(digits.skip(1) =~= Seq::empty());
        assert(digits.drop_last() =~= Seq::empty());
        assert(digits.last() as nat * pow10(0) == digits[0]) by (nonlinear_arith)
            requires
                pow10(0) == 1,
                digits.last() == digits[0],
        ;
    } else {
        let head = digits.drop_last();
        lemma_lowest_digit(head);
        assert(head.skip(1) =~= digits.skip(1).drop_last());
        assert(digits.skip(1).last() == digits.last());
        let top = digits.last() as nat;
        let n = digits.len() - 1;
        assert(top * pow10(n) == 10 * (top * pow10(n - 1))) by (nonlinear_arith)
            requires
                pow10(n) == 10 * pow10(n - 1),
        ;
    }
}

/// Digits without a leading zero, more than one of them, stand for at least ten.
proof fn lemma_large(digits: Seq<u8>)
    requires
        canonical(digits),
    ensures
        digits.len() > 1 ==> digits_value(digits) >= 10,
        digits.len() > 1 || digits[0] > 0 ==> digits_value(digits) > 0,
{
    lemma_pow10_positive(digits.len() - 1);
    let top = digits.last() as nat;
    if digits.len() > 1 {
        lemma_pow10_positive(digits.len() - 2);
        assert(pow10(digits.len() - 1) >= 10);
        assert(top * pow10(digits.len() - 1) >= 10) by (nonlinear_arith)
            requires
                top >= 1,
                pow10(digits.len() - 1) >= 10,
        ;
    } else {
        lemma_lowest_digit(digits);
    }
}

/// The digits written out, most significant first.
pub open spec fn written(digits: Seq<u8>) -> Seq<char>
    decreases digits.len(),
{
    if digits.len() == 0 {
        Seq::empty()
    } else {
        written(digits.skip(1)).push(text::digit(digits[0] as nat))
    }
}

/// Canonical digits written out are the decimal numeral of their value.
proof fn lemma_written(digits: Seq<u8>)
    requires
        canonical(digits),
    ensures
        written(digits) == text::decimal(digits_value(digits)),
    decreases digits.len(),
{
    lemma_lowest_digit(digits);
    lemma_large(digits);
    let rest = digits.skip(1);
    if digits.len() == 1 {
        assert(rest =~= Seq::empty());
        reveal_with_fuel(written, 2);
        assert(written(digits) =~= seq![text::digit(digits[0] as nat)]);
    } else {
        assert(rest.last() == digits.last());
        assert forall|i: int| 0 <= i < rest.len() implies #[trigger] rest[i] < 10 by {
            assert(rest[i] == digits[i + 1]);
        }
        if rest.len() == 1 {
            assert(rest[0] == digits.last());
        }
        lemma_written(rest);
        let n = digits_value(digits);
        assert(n / 10 == digits_value(rest));
        assert(n % 10 == digits[0]);
    }
}

/// The digits of a machine word.
fn digits_of(n: u64) -> (res: Vec<u8>)
    ensures
        canonical(res@),
        digits_value(res@) == n,
{
    let mut digits: Vec<u8> = Vec::new();
    digits.push((n % 10) as u8);
    let mut rest: u64 = n / 10;
    let ghost mut scale: nat = 10;
    proof {
        reveal_with_fuel(pow10, 2);
        lemma_lowest_digit(digits@);
        assert(digits@.skip(1) =~= Seq::empty());
        assert(rest as nat * scale + n % 10 == n);
    }
    while rest > 0
        invariant
            digits@.len() > 0,
            forall|i: int| 0 <= i < digits@.len() ==> #[trigger] digits@[i] < 10,
            scale == pow10(digits@.len() as int),
            digits_value(digits@) + rest as nat * scale == n,
            rest == 0 ==> digits@.len() > 1 ==> digits@.last() > 0,
        decreases rest,
    {
        let ghost before = digits@;
        let ghost whole = rest as nat;
        let low: u8 = (rest % 10) as u8;
        digits.push(low);
        rest = rest / 10;
        proof {
            assert(digits@.drop_last() =~= before);
            assert(whole * scale == low as nat * scale + (rest as nat) * (10 * scale))
                by (nonlinear_arith)
                requires
                    whole == 10 * (rest as nat) + low as nat,
            ;
            scale = 10 * scale;
        }
    }
    digits
}

/// Double a number by its digits.
fn double(digits: &mut Vec<u8>)
    requires
        canonical(old(digits)@),
        old(digits)@.len() < usize::MAX,
    ensures
        canonical(final(digits)@),
        digits_value(final(digits)@) == 2 * digits_value(old(digits)@),
        final(digits)@.len() <= old(digits)@.len() + 1,
{
    let ghost start = digits@;
    let mut carry: u8 = 0;
    let mut i: usize = 0;
    proof {
        assert(start.take(0) =~= Seq::empty());
        assert(digits@.take(0) =~= Seq::empty());
    }
    while i < digits.len()
        invariant
            i <= digits@.len(),
            digits@.len() == start.len(),
            canonical(start),
            carry <= 1,
            forall|k: int| i <= k < start.len() ==> #[trigger] digits@[k] == start[k],
            forall|k: int| 0 <= k < i ==> #[trigger] digits@[k] < 10,
            digits_value(digits@.take(i as int)) + carry as nat * pow10(i as int) == 2
                * digits_value(start.take(i as int)),
            i == start.len() && start.len() > 1 && carry == 0 ==> digits@.last() > 0,
        decreases digits@.len() - i,
    {
        let ghost before = digits@;
        let ghost old_carry = carry as nat;
        let doubled: u8 = 2 * digits[i] + carry;
        digits.set(i, doubled % 10);
        carry = doubled / 10;
        proof {
            let scale = pow10(i as int);
            let d = start[i as int] as nat;
            let low = (doubled % 10) as nat;
            assert(digits@.take(i + 1).drop_last() =~= before.take(i as int));
            assert(start.take(i + 1).drop_last() =~= start.take(i as int));
            assert(low * scale + carry as nat * (10 * scale) == 2 * (d * scale) + old_carry * scale)
                by (nonlinear_arith)
                requires
                    low + 10 * carry as nat == 2 * d + old_carry,
            ;
        }
        i = i + 1;
    }
    proof {
        assert(digits@.take(i as int) =~= digits@);
        assert(start.take(i as int) =~= start);
    }
    if carry > 0 {
        let ghost before = digits@;
        digits.push(carry);
        proof {
            assert(digits@.drop_last() =~= before);
        }
    }
}

/// Write `digits` behind `out`, most significant first.
fn push_digits(out: &mut String, digits: &Vec<u8>)
    requires
        canonical(digits@),
    ensures
        final(out)@ == old(out)@ + text::decimal(digits_value(digits@)),
{
    let ghost start = out@;
    let mut n: usize = digits.len();
    proof {
        assert(digits@.skip(n as int) =~= Seq::empty());
        assert(start + written(digits@.skip(n as int)) =~= start);
    }
    while n > 0
        invariant
            n <= digits@.len(),
            canonical(digits@),
            out@ == start + written(digits@.skip(n as int)),
        decreases n,
    {
        n = n - 1;
        out.append(digit_text(digits[n]));
        proof {
            let rest = digits@.skip(n as int);
            assert(rest.skip(1) =~= digits@.skip(n + 1));
            assert(rest[0] == digits@[n as int]);
            assert(start + written(digits@.skip(n + 1)) + seq![text::digit(digits@[n as int] as nat)]
                =~= start + written(rest));
        }
    }
    proof {
        assert(digits@.skip(0) =~= digits@);
        lemma_written(digits@);
    }
}

/// Write `n` doubled `doublings` times behind `out`, in decimal.
pub fn push_doubled(out: &mut String, n: u64, doublings: u32)
    requires
        doublings <= 2000,
    ensures
        final(out)@ == old(out)@ + text::decimal(n as nat * pow2(doublings as nat)),
{
    let mut digits = digits_of(n);
    let mut i: u32 = 0;
    proof {
        assert(n as nat * pow2(0) == n as nat) by (nonlinear_arith)
            requires
                pow2(0) == 1,
        ;
        lemma_few_digits(digits@);
    }
    while i < doublings
        invariant
            i <= doublings <= 2000,
            canonical(digits@),
            digits_value(digits@) == n as nat * pow2(i as nat),
            digits@.len() <= 64 + i,
        decreases doublings - i,
    {
        double(&mut digits);
        i = i + 1;
        proof {
            assert(2 * (n as nat * pow2((i - 1) as nat)) == n as nat * pow2(i as nat))
                by (nonlinear_arith)
                requires
                    pow2(i as nat) == 2 * pow2((i - 1) as nat),
            ;
        }
    }
    push_digits(out, &digits);
}

/// The digits of a machine word are few.
proof fn lemma_few_digits(digits: Seq<u8>)
    requires
        canonical(digits),
        digits_value(digits) <= u64::MAX,
    ensures
        digits.len() <= 64,
{
    if digits.len() > 64 {
        let top = digits.last() as nat;
        lemma_pow10_large(digits.len() - 1);
        assert(top * pow10(digits.len() - 1) >= pow10(digits.len() - 1)) by (nonlinear_arith)
            requires
                top >= 1,
        ;
    }
}

proof fn lemma_pow10_large(n: int)
    requires
        n >= 20,
    ensures
        pow10(n) > u64::MAX,
    decreases n,
{
    reveal_with_fuel(pow10, 21);
    if n > 20 {
        lemma_pow10_large(n - 1);
    }
}

} // verus!
