//! What numbers, amounts and ages look like, in terms of their values.
use vstd::prelude::*;

use super::fmt;
use crate::amount::Amount;
use crate::calendar;
use crate::calendar::Timestamp;
use crate::numeral;
use crate::text;

verus! {

// ==================== Numbers ====================

/// A number reads back from its digits, with or without a plus before them.
pub proof fn a_number_reads_back(n: nat)
    ensures
        text::whole_number(text::decimal(n)) == Some(n),
        text::whole_number(seq!['+'] + text::decimal(n)) == Some(n),
        n > 0 ==> text::decimal(n)[0] != '0',
{
    lemma_digits(n);
    let signed = seq!['+'] + text::decimal(n);
    assert(signed.skip(1) =~= text::decimal(n));
    assert(signed[0] == '+');
}

proof fn lemma_digits(n: nat)
    ensures
        text::decimal(n).len() > 0,
        text::digits_number(text::decimal(n)) == Some(n),
        forall|i: int| 0 <= i < text::decimal(n).len() ==> '0' <= #[trigger] text::decimal(n)[i]
            <= '9',
        n > 0 ==> text::decimal(n)[0] != '0',
    decreases n,
{
    if n < 10 {
        assert(text::decimal(n).drop_last() =~= Seq::empty());
        assert(text::digits_number(Seq::<char>::empty()) == Some(0nat));
        assert(text::decimal(n).last() == text::digit(n));
    } else {
        lemma_digits(n / 10);
        let digits = text::decimal(n);
        assert(digits.drop_last() =~= text::decimal(n / 10));
        assert(digits.last() == text::digit(n % 10));
        assert(digits[0] == text::decimal(n / 10)[0]);
    }
}

/// A quotient is rounded to the nearest whole number, a half to the even one.
pub proof fn rounding_finds_the_nearest(n: nat, d: nat)
    requires
        d > 0,
    ensures
        2 * (fmt::half_even(n, d) * d) <= 2 * n + d,
        2 * n <= 2 * (fmt::half_even(n, d) * d) + d,
        2 * (fmt::half_even(n, d) * d) == 2 * n + d || 2 * n == 2 * (fmt::half_even(n, d) * d) + d
            ==> fmt::half_even(n, d) % 2 == 0,
        2 * (fmt::half_up(n, d) * d) <= 2 * n + d,
        2 * n < 2 * (fmt::half_up(n, d) * d) + d,
{
    let q = n / d;
    let r = n % d;
    assert(n == q * d + r && 0 <= r < d) by (nonlinear_arith)
        requires
            d > 0,
            q == n / d,
            r == n % d,
    ;
    assert((q + 1) * d == q * d + d) by (nonlinear_arith);
}

/// Being anything but a comma.
pub open spec fn not_a_comma() -> spec_fn(char) -> bool {
    |c: char| c != ','
}

/// Grouping digits by threes puts one comma before every group but the first, and
/// leaves the digits as they are.
pub proof fn grouping_keeps_the_digits(digits: Seq<char>)
    requires
        digits.len() > 0,
        forall|i: int| 0 <= i < digits.len() ==> #[trigger] digits[i] != ',',
    ensures
        fmt::grouped(digits).len() == digits.len() + (digits.len() - 1) / 3,
        fmt::grouped(digits).filter(not_a_comma()) == digits,
        digits.len() > 3 ==> fmt::grouped(digits)[fmt::grouped(digits).len() - 4] == ',',
    decreases digits.len(),
{
    reveal_strlit(",");
    if digits.len() <= 3 {
        lemma_all_kept(digits, not_a_comma());
    } else {
        let head = digits.take(digits.len() - 3);
        let tail = digits.skip(digits.len() - 3);
        assert forall|i: int| 0 <= i < head.len() implies #[trigger] head[i] != ',' by {
            assert(head[i] == digits[i]);
        }
        assert forall|i: int| 0 <= i < tail.len() implies not_a_comma()(#[trigger] tail[i]) by {
            assert(tail[i] == digits[digits.len() - 3 + i]);
        }
        grouping_keeps_the_digits(head);
        lemma_all_kept(tail, not_a_comma());
        assert(","@ =~= seq![',']);
        lemma_comma_between(fmt::grouped(head), tail);
        lemma_split(digits, digits.len() - 3);
    }
}

proof fn lemma_split(digits: Seq<char>, at: int)
    requires
        0 <= at <= digits.len(),
    ensures
        digits.take(at) + digits.skip(at) == digits,
{
    assert(digits.take(at) + digits.skip(at) =~= digits);
}

proof fn lemma_comma_between(front: Seq<char>, back: Seq<char>)
    ensures
        (front + seq![','] + back).filter(not_a_comma()) == front.filter(not_a_comma())
            + back.filter(not_a_comma()),
{
    Seq::filter_distributes_over_add(front, seq![','], not_a_comma());
    Seq::filter_distributes_over_add(front + seq![','], back, not_a_comma());
    let comma = seq![','];
    assert(comma.filter(not_a_comma()).len() == 0) by {
        reveal_with_fuel(Seq::filter, 2);
        assert(comma.len() == 1 && comma.last() == ',');
        assert(comma.drop_last().len() == 0);
        assert(!not_a_comma()(comma.last()));
    }
    assert(comma.filter(not_a_comma()) =~= Seq::<char>::empty());
    assert(front.filter(not_a_comma()) + Seq::<char>::empty() =~= front.filter(not_a_comma()));
}

proof fn lemma_all_kept(items: Seq<char>, test: spec_fn(char) -> bool)
    requires
        forall|i: int| 0 <= i < items.len() ==> test(#[trigger] items[i]),
    ensures
        items.filter(test) == items,
    decreases items.len(),
{
    reveal(Seq::filter);
    if items.len() > 0 {
        let fewer = items.drop_last();
        assert forall|i: int| 0 <= i < fewer.len() implies test(#[trigger] fewer[i]) by {
            assert(fewer[i] == items[i]);
        }
        lemma_all_kept(fewer, test);
        assert(test(items[items.len() - 1]));
        assert(items.filter(test) =~= items);
    } else {
        assert(items.filter(test) =~= items);
    }
}

// ==================== Amounts ====================

/// Whole parts of a number: `parts` of them, of which `factor` make one, are the
/// nearest to the number whose bits are `magnitude`.
pub open spec fn nearest(parts: nat, magnitude: int, factor: nat) -> bool {
    let digits = if magnitude < 0x10_0000_0000_0000 {
        magnitude
    } else {
        magnitude % 0x10_0000_0000_0000 + 0x10_0000_0000_0000
    };
    let power = if magnitude < 0x10_0000_0000_0000 {
        1
    } else {
        magnitude / 0x10_0000_0000_0000
    };
    if power >= 1075 {
        parts == digits * factor * numeral::pow2((power - 1075) as nat)
    } else {
        let unit = numeral::pow2((1075 - power) as nat);
        2 * (parts * unit) <= 2 * (digits * factor) + unit && 2 * (digits * factor) <= 2 * (parts
            * unit) + unit
    }
}

proof fn lemma_nearest(magnitude: int, factor: nat)
    requires
        0 <= magnitude,
    ensures
        nearest(fmt::rounded_times(magnitude, factor), magnitude, factor),
{
    let power = fmt::exponent(magnitude);
    if power < 1075 {
        lemma_pow2((1075 - power) as nat);
        rounding_finds_the_nearest(
            fmt::significand(magnitude) * factor,
            numeral::pow2((1075 - power) as nat),
        );
    }
}

proof fn lemma_pow2(n: nat)
    ensures
        numeral::pow2(n) > 0,
    decreases n,
{
    if n > 0 {
        lemma_pow2((n - 1) as nat);
    }
}

/// An amount from a cent to below a hundred shows its hundredths, the nearest ones,
/// behind its sign and its currency; below half a cent it shows nothing, and below
/// a cent that it is less than one.
pub proof fn a_small_amount_shows_its_hundredths(value: Amount, currency: Seq<char>)
    requires
        currency != "JPY"@,
        value.magnitude() < 0x4059_0000_0000_0000,
    ensures
        value.magnitude() < 0x3F74_7AE1_47AE_147B ==> fmt::amount_text(value, currency)
            == fmt::prefix_of(currency) + "0"@,
        0x3F74_7AE1_47AE_147B <= value.magnitude() < 0x3F84_7AE1_47AE_147B ==> fmt::amount_text(
            value,
            currency,
        ) == minus(value) + "<"@ + fmt::prefix_of(currency) + "0.01"@,
        0x3F84_7AE1_47AE_147B <= value.magnitude() ==> exists|h: nat| #[trigger]
            nearest(h, value.magnitude(), 100) && fmt::amount_text(value, currency) == minus(value)
                + fmt::prefix_of(currency) + (text::decimal(h / 100) + "."@ + text::padded(
                h % 100,
                2,
            )),
{
    lemma_nearest(value.magnitude(), 100);
    assert(nearest(fmt::rounded_times(value.magnitude(), 100), value.magnitude(), 100));
}

/// The minus of what is below nothing.
pub open spec fn minus(value: Amount) -> Seq<char> {
    if value.bits >= 0x8000_0000_0000_0000 {
        "-"@
    } else {
        ""@
    }
}

/// A hundred or more shows whole units, in groups of thousands, and so does any
/// amount of a currency without hundredths.
pub proof fn a_large_amount_shows_whole_units(value: Amount, currency: Seq<char>)
    requires
        0x4059_0000_0000_0000 <= value.magnitude() <= 0x43D0_0000_0000_0000 || (currency == "JPY"@
            && 0x3F74_7AE1_47AE_147B <= value.magnitude() <= 0x43D0_0000_0000_0000),
    ensures
        fmt::amount_text(value, currency) == minus(value) + fmt::prefix_of(currency)
            + fmt::grouped(text::decimal(fmt::whole_units(value))),
        fmt::rounded(value.magnitude()) <= 0x7FFF_FFFF_FFFF_FFFF ==> nearest(
            fmt::whole_units(value),
            value.magnitude(),
            1,
        ),
{
    let power = fmt::exponent(value.magnitude());
    if power < 1075 {
        lemma_pow2((1075 - power) as nat);
        rounding_finds_the_nearest(
            fmt::significand(value.magnitude()),
            numeral::pow2((1075 - power) as nat),
        );
    } else {
        let digits = fmt::significand(value.magnitude());
        let unit = numeral::pow2((power - 1075) as nat);
        assert(digits * 1 * unit == digits * unit);
    }
}

/// A plain amount shows its hundredths, the nearest ones, behind its sign.
pub proof fn a_plain_amount_shows_its_hundredths(value: Amount)
    requires
        value.magnitude() < 0x7FF0_0000_0000_0000,
    ensures
        exists|h: nat| #[trigger]
            nearest(h, value.magnitude(), 100) && fmt::plain_text(value) == minus(value) + (
            text::decimal(h / 100) + "."@ + text::padded(h % 100, 2)),
{
    lemma_nearest(value.magnitude(), 100);
    assert(nearest(fmt::rounded_times(value.magnitude(), 100), value.magnitude(), 100));
}

/// A percentage shows its tenths, the nearest ones; a change with its sign, a share
/// with a minus alone.
pub proof fn a_percentage_shows_its_tenths(pct: Amount)
    requires
        pct.magnitude() < 0x7FF0_0000_0000_0000,
    ensures
        exists|t: nat| #[trigger]
            nearest(t, pct.magnitude(), 10) && fmt::change_text(pct) == (if pct.bits
                >= 0x8000_0000_0000_0000 {
                "-"@
            } else {
                "+"@
            }) + (text::decimal(t / 10) + "."@ + seq![text::digit(t % 10)]) + "%"@
                && fmt::share_text(pct) == minus(pct) + (text::decimal(t / 10) + "."@ + seq![
                text::digit(t % 10),
            ]) + "%"@,
        exists|w: nat| #[trigger]
            nearest(w, pct.magnitude(), 1) && fmt::whole_change_text(pct) == (if pct.bits
                >= 0x8000_0000_0000_0000 {
                "-"@
            } else {
                "+"@
            }) + text::decimal(w) + "%"@,
{
    lemma_nearest(pct.magnitude(), 10);
    assert(nearest(fmt::rounded_times(pct.magnitude(), 10), pct.magnitude(), 10));
    lemma_nearest(pct.magnitude(), 1);
    assert(nearest(fmt::rounded_times(pct.magnitude(), 1), pct.magnitude(), 1));
}

// ==================== Ages ====================

/// An age is told in minutes below an hour, in hours below two days, in days below
/// a week, and as a date from then on; below a minute it is just now, and so is
/// what lies ahead.
pub proof fn an_age_is_told_in_its_unit(at: Timestamp, now: Timestamp, minutes: int)
    requires
        at.valid(),
        now.valid(),
        minutes >= 0,
        minutes * 60_000_000_000 <= (now.seconds - at.seconds) * 1_000_000_000 + now.nanos
            - at.nanos < (minutes + 1) * 60_000_000_000,
    ensures
        minutes == 0 ==> fmt::age_text(at, now) == "just now"@,
        0 < minutes < 60 ==> fmt::age_text(at, now) == text::decimal(minutes as nat)
            + " min ago"@,
        60 <= minutes < 2 * 24 * 60 ==> fmt::age_text(at, now) == text::decimal(
            (minutes / 60) as nat,
        ) + " h ago"@,
        2 * 24 * 60 <= minutes < 7 * 24 * 60 ==> fmt::age_text(at, now) == text::decimal(
            (minutes / 1440) as nat,
        ) + " d ago"@,
        minutes >= 7 * 24 * 60 ==> fmt::age_text(at, now) == calendar::month_name(
            calendar::civil(at.seconds as int / 86_400).month as int,
        ).take(3) + " "@ + text::padded(
            calendar::civil(at.seconds as int / 86_400).day as nat,
            2,
        ),
{
    at.before_is_earlier(now);
    now.before_is_earlier(at);
    let between = now.nanoseconds() - at.nanoseconds();
    assert(between / 60_000_000_000 == minutes);
    assert(fmt::minutes_between(at, now) == minutes);
}

/// What lies ahead has no age.
pub proof fn what_lies_ahead_has_no_age(at: Timestamp, now: Timestamp)
    requires
        now.before(at),
    ensures
        fmt::age_text(at, now) == "just now"@,
{
}

/// An amount is told by its currency's sign, or by its code where it has none.
pub proof fn a_currency_is_told_by_its_sign(currency: Seq<char>)
    ensures
        currency == "USD"@ ==> fmt::prefix_of(currency) == "$"@,
        currency == "EUR"@ ==> fmt::prefix_of(currency) == "€"@,
        currency == "GBP"@ ==> fmt::prefix_of(currency) == "£"@,
        currency == "JPY"@ || currency == "CNY"@ ==> fmt::prefix_of(currency) == "¥"@,
        currency != "USD"@ && currency != "EUR"@ && currency != "GBP"@ && currency != "JPY"@
            && currency != "CNY"@ ==> fmt::prefix_of(currency) == currency + " "@,
{
    reveal_strlit("USD");
    reveal_strlit("EUR");
    reveal_strlit("GBP");
    reveal_strlit("JPY");
    reveal_strlit("CNY");
    reveal_strlit("$");
    reveal_strlit("€");
    reveal_strlit("£");
    reveal_strlit("¥");
    reveal_strlit("");
    assert("USD"@[0] != "EUR"@[0] && "USD"@[0] != "GBP"@[0] && "USD"@[0] != "JPY"@[0] && "USD"@[0]
        != "CNY"@[0]);
    assert("EUR"@[0] != "GBP"@[0] && "EUR"@[0] != "JPY"@[0] && "EUR"@[0] != "CNY"@[0]);
    assert("GBP"@[0] != "JPY"@[0] && "GBP"@[0] != "CNY"@[0]);
}

} // verus!
