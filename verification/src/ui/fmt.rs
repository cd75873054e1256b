//! Amounts, ages and changes as the pages write them.
use vstd::prelude::*;

use crate::amount;
use crate::amount::Amount;
use crate::calendar;
use crate::calendar::Timestamp;
use crate::numeral;
use crate::numeral::push_doubled;
use crate::text;
use crate::text::{digit_text, push_decimal, same_text};

verus! {

// ==================== Currencies ====================

/// Currency symbol for a reporting-currency code, empty for a code without one.
pub open spec fn symbol_of(currency: Seq<char>) -> Seq<char> {
    if currency == "USD"@ {
        "$"@
    } else if currency == "EUR"@ {
        "€"@
    } else if currency == "GBP"@ {
        "£"@
    } else if currency == "JPY"@ || currency == "CNY"@ {
        "¥"@
    } else {
        ""@
    }
}

/// What stands before the digits: the symbol, or the code where there is none.
pub open spec fn prefix_of(currency: Seq<char>) -> Seq<char> {
    if symbol_of(currency).len() == 0 {
        currency + " "@
    } else {
        symbol_of(currency)
    }
}

fn currency_symbol(currency: &str) -> (res: &'static str)
    ensures
        res@ == symbol_of(currency@),
{
    if same_text(currency, "USD") {
        "$"
    } else if same_text(currency, "EUR") {
        "€"
    } else if same_text(currency, "GBP") {
        "£"
    } else if same_text(currency, "JPY") || same_text(currency, "CNY") {
        "¥"
    } else {
        ""
    }
}

/// Decimal places a currency amounts to; the yen has no minor unit.
pub open spec fn decimals_of(currency: Seq<char>) -> nat {
    if currency == "JPY"@ {
        0
    } else {
        2
    }
}

fn currency_decimals(currency: &str) -> (res: usize)
    ensures
        res == decimals_of(currency@),
{
    if same_text(currency, "JPY") {
        0
    } else {
        2
    }
}

// ==================== Rounding ====================
//
// A finite amount is its significand times a power of two: its magnitude is
// `significand * 2^(exponent - 1075)`.

pub open spec fn significand(magnitude: int) -> nat {
    if magnitude / 0x10_0000_0000_0000 == 0 {
        (magnitude % 0x10_0000_0000_0000) as nat
    } else {
        (magnitude % 0x10_0000_0000_0000 + 0x10_0000_0000_0000) as nat
    }
}

pub open spec fn exponent(magnitude: int) -> nat {
    if magnitude / 0x10_0000_0000_0000 == 0 {
        1
    } else {
        (magnitude / 0x10_0000_0000_0000) as nat
    }
}

/// A fraction rounded to a whole number, a half to the even neighbour.
pub open spec fn half_even(n: nat, d: nat) -> nat {
    if 2 * (n % d) > d || (2 * (n % d) == d && n / d % 2 == 1) {
        n / d + 1
    } else {
        n / d
    }
}

/// A fraction rounded to a whole number, a half upward.
pub open spec fn half_up(n: nat, d: nat) -> nat {
    if 2 * (n % d) >= d {
        n / d + 1
    } else {
        n / d
    }
}

/// A magnitude below 2^1023 times `factor`, rounded to a whole number, a half
/// to the even neighbour: what a decimal print of that many places rounds to.
pub open spec fn rounded_times(magnitude: int, factor: nat) -> nat {
    if exponent(magnitude) >= 1075 {
        significand(magnitude) * factor * numeral::pow2((exponent(magnitude) - 1075) as nat)
    } else {
        half_even(
            significand(magnitude) * factor,
            numeral::pow2((1075 - exponent(magnitude)) as nat),
        )
    }
}

/// A magnitude rounded to a whole number, a half away from zero.
pub open spec fn rounded(magnitude: int) -> nat {
    if exponent(magnitude) >= 1075 {
        significand(magnitude) * numeral::pow2((exponent(magnitude) - 1075) as nat)
    } else {
        half_up(
            significand(magnitude),
            numeral::pow2((1075 - exponent(magnitude)) as nat),
        )
    }
}

/// A whole number of units as a 64-bit integer holds it: cut off at the ends of
/// the range, nothing for what is no number.
pub open spec fn whole_units(value: Amount) -> nat {
    let units = rounded(value.magnitude());
    if value.is_nan() {
        0
    } else if value.is_negative() {
        if units > 0x8000_0000_0000_0000 {
            0x8000_0000_0000_0000
        } else {
            units
        }
    } else if units > 0x7FFF_FFFF_FFFF_FFFF {
        0x7FFF_FFFF_FFFF_FFFF
    } else {
        units
    }
}

proof fn lemma_pow2_monotonic(a: nat, b: nat)
    requires
        a <= b,
    ensures
        numeral::pow2(a) <= numeral::pow2(b),
        numeral::pow2(a) > 0,
    decreases b,
{
    if a < b {
        lemma_pow2_monotonic(a, (b - 1) as nat);
    } else if a > 0 {
        lemma_pow2_monotonic((a - 1) as nat, (b - 1) as nat);
    }
}

proof fn lemma_pow2_values()
    ensures
        numeral::pow2(11) == 2048,
        numeral::pow2(60) == 0x1000_0000_0000_0000,
        numeral::pow2(64) == 0x1_0000_0000_0000_0000,
{
    reveal_with_fuel(numeral::pow2, 65);
}

/// A power of two.
fn power_of_two(n: u32) -> (res: u128)
    requires
        n <= 64,
    ensures
        res == numeral::pow2(n as nat),
        0 < res <= 0x1_0000_0000_0000_0000,
{
    let mut res: u128 = 1;
    let mut i: u32 = 0;
    proof {
        lemma_pow2_values();
    }
    while i < n
        invariant
            i <= n <= 64,
            res == numeral::pow2(i as nat),
            numeral::pow2(64) == 0x1_0000_0000_0000_0000,
        decreases n - i,
    {
        proof {
            lemma_pow2_monotonic((i + 1) as nat, 64);
        }
        res = 2 * res;
        i = i + 1;
    }
    proof {
        lemma_pow2_monotonic(n as nat, 64);
        lemma_pow2_monotonic(0, n as nat);
    }
    res
}

fn parts(magnitude: u64) -> (res: (u64, u32))
    requires
        magnitude < 0x8000_0000_0000_0000,
    ensures
        res.0 == significand(magnitude as int),
        res.1 == exponent(magnitude as int),
        res.0 < 0x20_0000_0000_0000,
        1 <= res.1 <= 2047,
        res.1 > 1 ==> res.0 >= 0x10_0000_0000_0000,
{
    let high: u64 = magnitude / 0x10_0000_0000_0000;
    let low: u64 = magnitude % 0x10_0000_0000_0000;
    if high == 0 {
        (low, 1)
    } else {
        (low + 0x10_0000_0000_0000, high as u32)
    }
}

/// A magnitude times a small factor, rounded to a whole number, where the
/// magnitude is below 2^52.
fn round_small(magnitude: u64, factor: u64) -> (res: u128)
    requires
        magnitude < 0x8000_0000_0000_0000,
        1 <= factor <= 100,
        exponent(magnitude as int) < 1075,
    ensures
        res == rounded_times(magnitude as int, factor as nat),
        res < 0x1000_0000_0000_0000,
{
    let (m, e) = parts(magnitude);
    proof {
        lemma_pow2_values();
        assert((m as nat) * (factor as nat) < 0x20_0000_0000_0000 * 101) by (nonlinear_arith)
            requires
                m < 0x20_0000_0000_0000,
                factor <= 100,
        ;
    }
    let n: u128 = m as u128 * factor as u128;
    let shift: u32 = 1075 - e;
    if shift > 64 {
        proof {
            lemma_pow2_monotonic(64, shift as nat);
            let d = numeral::pow2(shift as nat);
            assert(n as nat / d == 0 && n as nat % d == n as nat) by (nonlinear_arith)
                requires
                    (n as nat) < d,
            ;
        }
        return 0;
    }
    let d: u128 = power_of_two(shift);
    let q: u128 = n / d;
    let r: u128 = n % d;
    proof {
        assert(q <= n) by (nonlinear_arith)
            requires
                q == n / d,
                d >= 1,
        ;
    }
    if 2 * r > d || (2 * r == d && q % 2 == 1) {
        q + 1
    } else {
        q
    }
}

/// A magnitude rounded to a whole number, a half away from zero, cut off at
/// 2^63.
fn round_whole(magnitude: u64) -> (res: u64)
    requires
        magnitude < 0x8000_0000_0000_0000,
    ensures
        res == (if rounded(magnitude as int) > 0x8000_0000_0000_0000 {
            0x8000_0000_0000_0000
        } else {
            rounded(magnitude as int)
        }),
{
    let (m, e) = parts(magnitude);
    proof {
        lemma_pow2_values();
    }
    if e >= 1086 {
        proof {
            let scale = numeral::pow2((e - 1075) as nat);
            lemma_pow2_monotonic(11, (e - 1075) as nat);
            assert(m as nat * scale >= 0x8000_0000_0000_0000) by (nonlinear_arith)
                requires
                    m >= 0x10_0000_0000_0000,
                    scale >= 2048,
            ;
        }
        return 0x8000_0000_0000_0000;
    }
    if e >= 1075 {
        let scale: u128 = power_of_two(e - 1075);
        proof {
            lemma_pow2_monotonic((e - 1075) as nat, 10);
            reveal_with_fuel(numeral::pow2, 11);
            assert(m as nat * scale as nat <= 0x7FFF_FFFF_FFFF_FFFF) by (nonlinear_arith)
                requires
                    m < 0x20_0000_0000_0000,
                    scale <= 1024,
            ;
        }
        return (m as u128 * scale) as u64;
    }
    let shift: u32 = 1075 - e;
    if shift > 64 {
        proof {
            lemma_pow2_monotonic(64, shift as nat);
            let d = numeral::pow2(shift as nat);
            assert(m as nat / d == 0 && m as nat % d == m as nat) by (nonlinear_arith)
                requires
                    (m as nat) < d,
            ;
        }
        return 0;
    }
    let d: u128 = power_of_two(shift);
    let q: u128 = m as u128 / d;
    let r: u128 = m as u128 % d;
    proof {
        assert(q <= m as u128) by (nonlinear_arith)
            requires
                q == m as u128 / d,
                d >= 1,
        ;
    }
    if 2 * r >= d {
        (q + 1) as u64
    } else {
        q as u64
    }
}

// ==================== Amounts ====================

/// Digits with a comma before every third from the right.
pub open spec fn grouped(digits: Seq<char>) -> Seq<char>
    decreases digits.len(),
{
    if digits.len() <= 3 {
        digits
    } else {
        grouped(digits.take(digits.len() - 3)) + ","@ + digits.skip(digits.len() - 3)
    }
}

fn push_grouped(out: &mut String, digits: &str, n: usize)
    requires
        n <= digits@.len(),
    ensures
        final(out)@ == old(out)@ + grouped(digits@.take(n as int)),
    decreases n,
{
    let ghost start = out@;
    if n <= 3 {
        out.append(digits.substring_char(0, n));
        proof {
            assert(digits@.subrange(0, n as int) =~= digits@.take(n as int));
        }
    } else {
        push_grouped(out, digits, n - 3);
        out.append(",");
        out.append(digits.substring_char(n - 3, n));
        proof {
            let all = digits@.take(n as int);
            assert(all.take(all.len() - 3) =~= digits@.take(n - 3));
            assert(all.skip(all.len() - 3) =~= digits@.subrange(n - 3, n as int));
            assert(start + grouped(digits@.take(n - 3)) + ","@ + digits@.subrange(
                n - 3,
                n as int,
            ) =~= start + grouped(all));
        }
    }
}

/// Hundredths with two decimals.
pub open spec fn two_places(hundredths: nat) -> Seq<char> {
    text::decimal(hundredths / 100) + "."@ + text::padded(hundredths % 100, 2)
}

/// A minus before an amount below zero.
pub open spec fn sign_of(value: Amount) -> Seq<char> {
    if value.is_negative() && !value.is_nan() {
        "-"@
    } else {
        ""@
    }
}

/// An amount with its currency. Below half a cent it is netting round-off and
/// reads as nothing; below a cent it has no honest rounding and says so; below
/// a hundred it keeps two decimals, if the currency has them; otherwise it is
/// rounded to whole units, in groups of thousands.
pub open spec fn amount_text(value: Amount, currency: Seq<char>) -> Seq<char> {
    let prefix = prefix_of(currency);
    let magnitude = value.magnitude();
    if magnitude < amount::HALF_CENT {
        prefix + "0"@
    } else if decimals_of(currency) == 2 && magnitude < amount::CENT {
        sign_of(value) + "<"@ + prefix + "0.01"@
    } else if decimals_of(currency) == 2 && magnitude < amount::HUNDRED {
        sign_of(value) + prefix + two_places(rounded_times(magnitude, 100))
    } else {
        sign_of(value) + prefix + grouped(text::decimal(whole_units(value)))
    }
}

fn push_two_places(out: &mut String, hundredths: u64)
    ensures
        final(out)@ == old(out)@ + two_places(hundredths as nat),
{
    let ghost start = out@;
    push_decimal(out, hundredths / 100);
    out.append(".");
    let rest: u64 = hundredths % 100;
    out.append(digit_text((rest / 10) as u8));
    out.append(digit_text((rest % 10) as u8));
    proof {
        let n = (hundredths as nat) % 100;
        reveal_with_fuel(text::decimal, 3);
        reveal_with_fuel(text::zeros, 3);
        assert(text::padded(n, 2) =~= seq![text::digit(n / 10)] + seq![text::digit(n % 10)]);
        assert(start + text::decimal(hundredths as nat / 100) + "."@ + seq![text::digit(n / 10)]
            + seq![text::digit(n % 10)] =~= start + two_places(hundredths as nat));
    }
}

/// An amount with its currency's symbol, such as `$51,080`.
pub fn amount(value: Amount, currency: &str) -> (res: String)
    ensures
        res@ == amount_text(value, currency@),
{
    let symbol = currency_symbol(currency);
    let prefix = if symbol.is_empty() {
        text::concat2(currency, " ")
    } else {
        symbol.to_owned()
    };
    let decimals: usize = currency_decimals(currency);
    let magnitude: u64 = value.abs().bits;
    proof {
        reveal_strlit("");
    }
    if magnitude < amount::HALF_CENT {
        return text::concat2(&prefix, "0");
    }
    let sign = if value.negative() && !value.nan() {
        "-"
    } else {
        ""
    };
    if decimals == 2 && magnitude < amount::CENT {
        let mut out = text::concat3(sign, "<", &prefix);
        out.append("0.01");
        return out;
    }
    let mut out = text::concat2(sign, &prefix);
    if decimals == 2 && magnitude < amount::HUNDRED {
        let cents: u128 = round_small(magnitude, 100);
        push_two_places(&mut out, cents as u64);
        return out;
    }
    let units: u64 = if value.nan() {
        0
    } else {
        let units: u64 = round_whole(magnitude);
        if !value.negative() && units > 0x7FFF_FFFF_FFFF_FFFF {
            0x7FFF_FFFF_FFFF_FFFF
        } else {
            units
        }
    };
    let digits = text::decimal_text(units);
    let n: usize = digits.as_str().unicode_len();
    push_grouped(&mut out, &digits, n);
    proof {
        assert(digits@.take(n as int) =~= digits@);
    }
    out
}

// ==================== Ages and changes ====================

/// Whole minutes from one instant to a later one, none where it is not later.
pub open spec fn minutes_between(at: Timestamp, now: Timestamp) -> int {
    if now.before(at) {
        0
    } else {
        (now.nanoseconds() - at.nanoseconds()) / 60_000_000_000
    }
}

/// Whole minutes from one instant to a later one, none where it is not later.
pub fn elapsed_minutes(at: Timestamp, now: Timestamp) -> (res: u64)
    requires
        at.valid(),
        now.valid(),
    ensures
        res == minutes_between(at, now),
{
    if now.earlier_than(at) {
        return 0;
    }
    proof {
        at.before_is_earlier(now);
        now.before_is_earlier(at);
    }
    let nanos: i128 = (now.seconds as i128 - at.seconds as i128) * 1_000_000_000 + (
    now.nanos as i128 - at.nanos as i128);
    (nanos / 60_000_000_000) as u64
}

/// How old an instant is.
pub open spec fn age_text(at: Timestamp, now: Timestamp) -> Seq<char> {
    let elapsed = minutes_between(at, now);
    if elapsed < 1 {
        "just now"@
    } else if elapsed < 60 {
        text::decimal(elapsed as nat) + " min ago"@
    } else if elapsed < 2880 {
        text::decimal((elapsed / 60) as nat) + " h ago"@
    } else if elapsed < 10080 {
        text::decimal((elapsed / 1440) as nat) + " d ago"@
    } else {
        calendar::short_month_name(at.on().month as int) + " "@ + text::padded(
            at.on().day as nat,
            2,
        )
    }
}

/// An instant as an age: `just now`, `N min ago`, `N h ago`, `N d ago`, or the
/// calendar date once it is more than a week out.
pub fn relative_time(at: Timestamp, now: Timestamp) -> (res: String)
    requires
        at.valid(),
        now.valid(),
    ensures
        res@ == age_text(at, now),
{
    let elapsed: u64 = elapsed_minutes(at, now);
    if elapsed < 1 {
        "just now".to_owned()
    } else if elapsed < 60 {
        text::concat2(&text::decimal_text(elapsed), " min ago")
    } else if elapsed < 2880 {
        text::concat2(&text::decimal_text(elapsed / 60), " h ago")
    } else if elapsed < 10080 {
        text::concat2(&text::decimal_text(elapsed / 1440), " d ago")
    } else {
        at.date().short_label()
    }
}

/// Tenths with one decimal.
pub open spec fn one_place(tenths: nat) -> Seq<char> {
    text::decimal(tenths / 10) + "."@ + seq![text::digit(tenths % 10)]
}

/// A percentage behind a sign with one decimal, a half rounded to the even
/// neighbour.
pub open spec fn pct_text(sign: Seq<char>, pct: Amount) -> Seq<char> {
    if pct.is_nan() {
        "NaN%"@
    } else if pct.magnitude() == amount::INFINITY {
        sign + "inf%"@
    } else {
        sign + one_place(rounded_times(pct.magnitude(), 10)) + "%"@
    }
}

/// A percentage with its sign and one decimal.
pub open spec fn change_text(pct: Amount) -> Seq<char> {
    pct_text(
        if pct.is_negative() {
            "-"@
        } else {
            "+"@
        },
        pct,
    )
}

/// A percentage with one decimal.
pub open spec fn share_text(pct: Amount) -> Seq<char> {
    pct_text(
        if pct.is_negative() {
            "-"@
        } else {
            ""@
        },
        pct,
    )
}

/// A percentage change with its sign, such as `+12.5%`.
pub fn change_pct(pct: Amount) -> (res: String)
    ensures
        res@ == change_text(pct),
{
    let sign = if pct.negative() {
        "-"
    } else {
        "+"
    };
    signed_pct(sign, pct)
}

/// A percentage with one decimal, e.g. `12.5%`.
pub fn share_pct(pct: Amount) -> (res: String)
    ensures
        res@ == share_text(pct),
{
    let sign = if pct.negative() {
        "-"
    } else {
        ""
    };
    signed_pct(sign, pct)
}

fn signed_pct(sign: &str, pct: Amount) -> (res: String)
    ensures
        res@ == pct_text(sign@, pct),
{
    if pct.nan() {
        return "NaN%".to_owned();
    }
    let magnitude: u64 = pct.abs().bits;
    if magnitude == amount::INFINITY {
        return text::concat2(sign, "inf%");
    }
    let mut out = sign.to_owned();
    let (m, e) = parts(magnitude);
    if e >= 1075 {
        push_doubled(&mut out, m, e - 1075);
        out.append(".");
        out.append("0");
        proof {
            let whole = m as nat * numeral::pow2((e - 1075) as nat);
            let tenths = rounded_times(magnitude as int, 10);
            assert(tenths == whole * 10) by (nonlinear_arith)
                requires
                    whole == m as nat * numeral::pow2((e - 1075) as nat),
                    tenths == m as nat * 10 * numeral::pow2((e - 1075) as nat),
            ;
            assert(tenths / 10 == whole && tenths % 10 == 0);
            reveal_strlit("0");
            assert("0"@ =~= seq![text::digit(0)]);
            assert(sign@ + text::decimal(whole) + "."@ + "0"@ =~= sign@ + one_place(tenths));
        }
    } else {
        let tenths: u128 = round_small(magnitude, 10);
        let t: u64 = tenths as u64;
        push_decimal(&mut out, t / 10);
        out.append(".");
        out.append(digit_text((t % 10) as u8));
        proof {
            assert(sign@ + text::decimal(t as nat / 10) + "."@ + seq![text::digit(t as nat % 10)]
                =~= sign@ + one_place(t as nat));
        }
    }
    out.append("%");
    out
}

/// An amount with two decimals and no grouping, a half rounded to the even
/// neighbour.
pub open spec fn plain_text(value: Amount) -> Seq<char> {
    let sign = if value.is_negative() {
        "-"@
    } else {
        ""@
    };
    if value.is_nan() {
        "NaN"@
    } else if value.magnitude() == amount::INFINITY {
        sign + "inf"@
    } else {
        sign + two_places(rounded_times(value.magnitude(), 100))
    }
}

/// An amount with two decimals and no grouping, such as `1234.50`.
pub fn two_decimals(value: Amount) -> (res: String)
    ensures
        res@ == plain_text(value),
{
    if value.nan() {
        return "NaN".to_owned();
    }
    let sign = if value.negative() {
        "-"
    } else {
        ""
    };
    let magnitude: u64 = value.abs().bits;
    if magnitude == amount::INFINITY {
        return text::concat2(sign, "inf");
    }
    let mut out = sign.to_owned();
    let (m, e) = parts(magnitude);
    if e >= 1075 {
        push_doubled(&mut out, m, e - 1075);
        out.append(".");
        out.append("00");
        proof {
            let whole = m as nat * numeral::pow2((e - 1075) as nat);
            let cents = rounded_times(magnitude as int, 100);
            assert(cents == whole * 100) by (nonlinear_arith)
                requires
                    whole == m as nat * numeral::pow2((e - 1075) as nat),
                    cents == m as nat * 100 * numeral::pow2((e - 1075) as nat),
            ;
            assert(cents / 100 == whole && cents % 100 == 0);
            reveal_strlit("00");
            reveal_with_fuel(text::decimal, 2);
            reveal_with_fuel(text::zeros, 3);
            assert(text::padded(0, 2) =~= "00"@);
            assert(sign@ + text::decimal(whole) + "."@ + "00"@ =~= sign@ + two_places(cents));
        }
    } else {
        let cents: u128 = round_small(magnitude, 100);
        push_two_places(&mut out, cents as u64);
    }
    out
}

/// A percentage with its sign and no decimals, a half rounded to the even
/// neighbour.
pub open spec fn whole_change_text(pct: Amount) -> Seq<char> {
    let sign = if pct.is_negative() {
        "-"@
    } else {
        "+"@
    };
    if pct.is_nan() {
        "NaN%"@
    } else if pct.magnitude() == amount::INFINITY {
        sign + "inf%"@
    } else {
        sign + text::decimal(rounded_times(pct.magnitude(), 1)) + "%"@
    }
}

/// A percentage with its sign and no decimals, e.g. `+12%`.
pub fn whole_change_pct(pct: Amount) -> (res: String)
    ensures
        res@ == whole_change_text(pct),
{
    if pct.nan() {
        return "NaN%".to_owned();
    }
    let sign = if pct.negative() {
        "-"
    } else {
        "+"
    };
    let magnitude: u64 = pct.abs().bits;
    if magnitude == amount::INFINITY {
        return text::concat2(sign, "inf%");
    }
    let mut out = sign.to_owned();
    let (m, e) = parts(magnitude);
    if e >= 1075 {
        push_doubled(&mut out, m, e - 1075);
        proof {
            assert(m as nat * 1 == m as nat);
        }
    } else {
        let whole: u128 = round_small(magnitude, 1);
        push_decimal(&mut out, whole as u64);
    }
    out.append("%");
    out
}

} // verus!
