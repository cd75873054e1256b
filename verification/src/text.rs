//! Text: decimal numerals, prefixes and joined lists.
use vstd::prelude::*;

verus! {

// ==================== Decimal numerals ====================

/// The character of one decimal digit.
pub open spec fn digit(d: nat) -> char {
    if d == 0 {
        '0'
    } else if d == 1 {
        '1'
    } else if d == 2 {
        '2'
    } else if d == 3 {
        '3'
    } else if d == 4 {
        '4'
    } else if d == 5 {
        '5'
    } else if d == 6 {
        '6'
    } else if d == 7 {
        '7'
    } else if d == 8 {
        '8'
    } else {
        '9'
    }
}

/// A number in decimal, without leading zeros.
pub open spec fn decimal(n: nat) -> Seq<char>
    decreases n,
{
    if n < 10 {
        seq![digit(n)]
    } else {
        decimal(n / 10).push(digit(n % 10))
    }
}

/// A number in decimal, filled up with zeros on the left to `width` digits.
pub open spec fn padded(n: nat, width: nat) -> Seq<char> {
    zeros((width - decimal(n).len()) as int) + decimal(n)
}

/// `count` zeros, none for a count below one.
pub open spec fn zeros(count: int) -> Seq<char>
    decreases count,
{
    if count <= 0 {
        Seq::empty()
    } else {
        zeros(count - 1).push('0')
    }
}

/// The text of one digit.
pub fn digit_text(d: u8) -> (res: &'static str)
    requires
        d < 10,
    ensures
        res@ == seq![digit(d as nat)],
{
    proof {
        reveal_strlit("0");
        reveal_strlit("1");
        reveal_strlit("2");
        reveal_strlit("3");
        reveal_strlit("4");
        reveal_strlit("5");
        reveal_strlit("6");
        reveal_strlit("7");
        reveal_strlit("8");
        reveal_strlit("9");
        assert("0"@ =~= seq!['0']);
        assert("1"@ =~= seq!['1']);
        assert("2"@ =~= seq!['2']);
        assert("3"@ =~= seq!['3']);
        assert("4"@ =~= seq!['4']);
        assert("5"@ =~= seq!['5']);
        assert("6"@ =~= seq!['6']);
        assert("7"@ =~= seq!['7']);
        assert("8"@ =~= seq!['8']);
        assert("9"@ =~= seq!['9']);
    }
    match d {
        0 => "0",
        1 => "1",
        2 => "2",
        3 => "3",
        4 => "4",
        5 => "5",
        6 => "6",
        7 => "7",
        8 => "8",
        _ => "9",
    }
}

/// Write a number in decimal behind `out`.
pub fn push_decimal(out: &mut String, n: u64)
    ensures
        final(out)@ == old(out)@ + decimal(n as nat),
    decreases n,
{
    if n >= 10 {
        push_decimal(out, n / 10);
    }
    out.append(digit_text((n % 10) as u8));
    proof {
        if n >= 10 {
            assert(old(out)@ + decimal(n as nat / 10) + seq![digit(n as nat % 10)]
                =~= old(out)@ + decimal(n as nat));
        } else {
            assert(old(out)@ + seq![digit(n as nat)] =~= old(out)@ + decimal(n as nat));
        }
    }
}

/// A number in decimal.
pub fn decimal_text(n: u64) -> (res: String)
    ensures
        res@ == decimal(n as nat),
{
    let mut out = String::new();
    push_decimal(&mut out, n);
    proof {
        assert(Seq::<char>::empty() + decimal(n as nat) =~= decimal(n as nat));
    }
    out
}

// ==================== Concatenation ====================

/// An integer in decimal, a minus before one below zero.
pub open spec fn signed_decimal(n: int) -> Seq<char> {
    if n < 0 {
        "-"@ + decimal((-n) as nat)
    } else {
        decimal(n as nat)
    }
}

/// An integer in decimal.
pub fn signed_text(n: i64) -> (res: String)
    ensures
        res@ == signed_decimal(n as int),
{
    if n < 0 {
        let magnitude: i128 = 0 - (n as i128);
        concat2("-", &decimal_text(magnitude as u64))
    } else {
        decimal_text(n as u64)
    }
}

/// Two pieces of text in a row.
pub fn concat2(a: &str, b: &str) -> (res: String)
    ensures
        res@ == a@ + b@,
{
    let mut out = a.to_owned();
    out.append(b);
    out
}

/// Three pieces of text in a row.
pub fn concat3(a: &str, b: &str, c: &str) -> (res: String)
    ensures
        res@ == a@ + b@ + c@,
{
    let mut out = a.to_owned();
    out.append(b);
    out.append(c);
    out
}

/// The texts of `items` with `separator` between each two.
pub open spec fn joined(items: Seq<Seq<char>>, separator: Seq<char>) -> Seq<char>
    decreases items.len(),
{
    if items.len() == 0 {
        Seq::empty()
    } else if items.len() == 1 {
        items[0]
    } else {
        joined(items.drop_last(), separator) + separator + items.last()
    }
}

/// The texts held by a list.
pub open spec fn texts(items: Seq<String>) -> Seq<Seq<char>> {
    items.map_values(|s: String| s@)
}

/// Join a list with a separator.
pub fn join(items: &Vec<String>, separator: &str) -> (res: String)
    ensures
        res@ == joined(texts(items@), separator@),
{
    let mut out = String::new();
    let mut i: usize = 0;
    let ghost all = texts(items@);
    proof {
        assert(all.take(0) =~= Seq::empty());
    }
    while i < items.len()
        invariant
            i <= items.len(),
            all == texts(items@),
            out@ == joined(all.take(i as int), separator@),
        decreases items.len() - i,
    {
        proof {
            assert(all.take(i + 1).drop_last() =~= all.take(i as int));
            assert(all.take(i + 1).last() == items@[i as int]@);
        }
        if i > 0 {
            out.append(separator);
        }
        out.append(items[i].as_str());
        i = i + 1;
        proof {
            if i == 1 {
                assert(out@ =~= items@[0]@);
            }
        }
    }
    proof {
        assert(all.take(i as int) =~= all);
    }
    out
}

// ==================== Prefixes ====================

/// `text` begins with `prefix`.
pub open spec fn begins_with(text: Seq<char>, prefix: Seq<char>) -> bool {
    prefix.len() <= text.len() && text.take(prefix.len() as int) == prefix
}

/// Whether `text` begins with `prefix`.
pub fn starts_with(text: &str, prefix: &str) -> (res: bool)
    ensures
        res == begins_with(text@, prefix@),
{
    let n: usize = prefix.unicode_len();
    if text.unicode_len() < n {
        return false;
    }
    let head = text.substring_char(0, n);
    same_text(head, prefix)
}

/// Whether two pieces of text are the same.
pub fn same_text(a: &str, b: &str) -> (res: bool)
    ensures
        res == (a@ == b@),
{
    match crate::order::text_side(a, b) {
        crate::order::Side::Same => true,
        _ => false,
    }
}

/// `text` with every leading occurrence of `prefix` taken off; an empty prefix
/// takes nothing off.
pub open spec fn trimmed_start(text: Seq<char>, prefix: Seq<char>) -> Seq<char>
    decreases text.len(),
{
    if prefix.len() > 0 && begins_with(text, prefix) {
        trimmed_start(text.skip(prefix.len() as int), prefix)
    } else {
        text
    }
}

/// Take every leading occurrence of `prefix` off `text`.
pub fn trim_start_matches(text: &str, prefix: &str) -> (res: String)
    ensures
        res@ == trimmed_start(text@, prefix@),
{
    let n: usize = prefix.unicode_len();
    let len: usize = text.unicode_len();
    let mut from: usize = 0;
    proof {
        assert(text@.skip(0) =~= text@);
    }
    while n > 0 && len - from >= n && same_text(text.substring_char(from, from + n), prefix)
        invariant
            n == prefix@.len(),
            len == text@.len(),
            from <= len,
            trimmed_start(text@, prefix@) == trimmed_start(text@.skip(from as int), prefix@),
        decreases len - from,
    {
        proof {
            let rest = text@.skip(from as int);
            assert(rest.take(n as int) =~= text@.subrange(from as int, from + n));
            assert(rest.skip(n as int) =~= text@.skip(from + n));
        }
        from = from + n;
    }
    proof {
        let rest = text@.skip(from as int);
        if n > 0 && len - from >= n {
            assert(rest.take(n as int) =~= text@.subrange(from as int, from + n));
        }
        assert(text@.subrange(from as int, len as int) =~= rest);
    }
    text.substring_char(from, len).to_owned()
}

// ==================== Blanks ====================

/// A blank: the characters that Unicode gives the property `White_Space`.
pub open spec fn is_blank(c: char) -> bool {
    let n = c as u32;
    ||| 0x09 <= n <= 0x0d
    ||| n == 0x20
    ||| n == 0x85
    ||| n == 0xa0
    ||| n == 0x1680
    ||| 0x2000 <= n <= 0x200a
    ||| n == 0x2028
    ||| n == 0x2029
    ||| n == 0x202f
    ||| n == 0x205f
    ||| n == 0x3000
}

fn blank(c: char) -> (res: bool)
    ensures
        res == is_blank(c),
{
    let n: u32 = c as u32;
    (0x09 <= n && n <= 0x0d) || n == 0x20 || n == 0x85 || n == 0xa0 || n == 0x1680 || (0x2000 <= n
        && n <= 0x200a) || n == 0x2028 || n == 0x2029 || n == 0x202f || n == 0x205f || n == 0x3000
}

/// `text` without the blanks at its end.
pub open spec fn trimmed_end(text: Seq<char>) -> Seq<char>
    decreases text.len(),
{
    if text.len() > 0 && is_blank(text.last()) {
        trimmed_end(text.drop_last())
    } else {
        text
    }
}

/// `text` without the blanks at its start.
pub open spec fn trimmed_front(text: Seq<char>) -> Seq<char>
    decreases text.len(),
{
    if text.len() > 0 && is_blank(text[0]) {
        trimmed_front(text.skip(1))
    } else {
        text
    }
}

/// `text` without the blanks at its start and end.
pub open spec fn trimmed(text: Seq<char>) -> Seq<char> {
    trimmed_end(trimmed_front(text))
}

/// Take the blanks off both ends of `text`.
pub fn trim(text: &str) -> (res: String)
    ensures
        res@ == trimmed(text@),
{
    let len: usize = text.unicode_len();
    let mut from: usize = 0;
    proof {
        assert(text@.skip(0) =~= text@);
    }
    while from < len && blank(text.get_char(from))
        invariant
            len == text@.len(),
            from <= len,
            trimmed_front(text@) == trimmed_front(text@.skip(from as int)),
        decreases len - from,
    {
        proof {
            assert(text@.skip(from as int).skip(1) =~= text@.skip(from + 1));
        }
        from = from + 1;
    }
    let ghost front = text@.skip(from as int);
    let mut to: usize = len;
    proof {
        assert(front == trimmed_front(text@));
        assert(text@.subrange(from as int, to as int) =~= front);
    }
    while to > from && blank(text.get_char(to - 1))
        invariant
            len == text@.len(),
            from <= to <= len,
            trimmed_end(front) == trimmed_end(text@.subrange(from as int, to as int)),
        decreases to - from,
    {
        proof {
            assert(text@.subrange(from as int, to as int).drop_last() =~= text@.subrange(
                from as int,
                to - 1,
            ));
        }
        to = to - 1;
    }
    text.substring_char(from, to).to_owned()
}

/// Whether there is nothing in `text`.
pub fn is_empty_text(text: &str) -> (res: bool)
    ensures
        res == (text@.len() == 0),
{
    text.unicode_len() == 0
}

// ==================== Numbers ====================

/// The number that a run of decimal digits is, where every character is one.
pub open spec fn digits_number(text: Seq<char>) -> Option<nat>
    decreases text.len(),
{
    if text.len() == 0 {
        Some(0)
    } else {
        let c = text.last();
        match digits_number(text.drop_last()) {
            Some(n) => if '0' <= c <= '9' {
                Some((10 * n + (c as u32 - '0' as u32)) as nat)
            } else {
                None
            },
            None => None,
        }
    }
}

/// The whole number that text names: decimal digits, with or without a plus
/// sign before them.
pub open spec fn whole_number(text: Seq<char>) -> Option<nat> {
    let digits = if text.len() > 0 && text[0] == '+' {
        text.skip(1)
    } else {
        text
    };
    if digits.len() == 0 {
        None
    } else {
        digits_number(digits)
    }
}

/// The whole number that text names, where it names one of 64 bits.
pub fn parse_whole(text: &str) -> (res: Option<u64>)
    ensures
        match whole_number(text@) {
            Some(n) => if n <= u64::MAX {
                res is Some && res->0 == n
            } else {
                res is None
            },
            None => res is None,
        },
{
    let len: usize = text.unicode_len();
    let mut from: usize = 0;
    if len > 0 && text.get_char(0) == '+' {
        from = 1;
    }
    let ghost digits = text@.skip(from as int);
    proof {
        assert(text@.skip(0) =~= text@);
    }
    if from == len {
        return None;
    }
    let mut value: u64 = 0;
    let mut i: usize = from;
    proof {
        assert(digits.take(0) =~= Seq::empty());
        assert(whole_number(text@) == digits_number(digits));
    }
    while i < len
        invariant
            from <= i <= len,
            len == text@.len(),
            digits == text@.skip(from as int),
            whole_number(text@) == digits_number(digits),
            digits_number(digits.take(i - from)) == Some(value as nat),
        decreases len - i,
    {
        let c = text.get_char(i);
        proof {
            assert(digits.take(i - from + 1).drop_last() =~= digits.take(i - from));
            assert(digits.take(i - from + 1).last() == c);
        }
        if c < '0' || c > '9' {
            proof {
                lemma_no_number(digits, i - from + 1);
            }
            return None;
        }
        let d: u64 = (c as u32 - '0' as u32) as u64;
        if value > (u64::MAX - d) / 10 {
            proof {
                assert(10 * value + d > u64::MAX);
                lemma_number_grows(digits, i - from + 1);
            }
            return None;
        }
        value = 10 * value + d;
        i = i + 1;
    }
    proof {
        assert(digits.take(i - from) =~= digits);
    }
    Some(value)
}

/// Text whose start is no number is none.
proof fn lemma_no_number(text: Seq<char>, n: int)
    requires
        0 <= n <= text.len(),
        digits_number(text.take(n)) is None,
    ensures
        digits_number(text) is None,
    decreases text.len() - n,
{
    if n == text.len() {
        assert(text.take(n) =~= text);
    } else {
        assert(text.take(n + 1).drop_last() =~= text.take(n));
        lemma_no_number(text, n + 1);
    }
}

/// More digits make no smaller number.
proof fn lemma_number_grows(text: Seq<char>, n: int)
    requires
        0 <= n <= text.len(),
        digits_number(text.take(n)) is Some,
    ensures
        digits_number(text) is Some ==> digits_number(text)->0 >= digits_number(text.take(n))->0,
    decreases text.len() - n,
{
    if n == text.len() {
        assert(text.take(n) =~= text);
    } else {
        assert(text.take(n + 1).drop_last() =~= text.take(n));
        if digits_number(text.take(n + 1)) is Some {
            lemma_number_grows(text, n + 1);
        } else {
            lemma_no_number(text, n + 1);
        }
    }
}

} // verus!
