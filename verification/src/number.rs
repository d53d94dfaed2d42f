//! Decimal numbers as text, written and read.

use vstd::prelude::*;
use vstd::string::*;

use crate::text::characters;

verus! {

/// The decimal digit with value `d`.
pub open spec fn digit(d: nat) -> char {
    ('0' as u32 + d) as char
}

/// `n` in decimal, without leading zeros.
pub open spec fn decimal(n: nat) -> Seq<char>
    decreases n,
{
    if n < 10 {
        seq![digit(n)]
    } else {
        decimal(n / 10).push(digit(n % 10))
    }
}

/// `n` in decimal, with a leading zero if it has one digit only.
pub open spec fn two_digits(n: nat) -> Seq<char> {
    if n < 10 {
        "0"@ + decimal(n)
    } else {
        decimal(n)
    }
}

/// Whether `c` is a decimal digit.
pub open spec fn is_digit(c: char) -> bool {
    '0' <= c <= '9'
}

/// Whether `s` consists of decimal digits, one at least.
pub open spec fn is_number(s: Seq<char>) -> bool {
    &&& s.len() > 0
    &&& forall|i: int| 0 <= i < s.len() ==> is_digit(#[trigger] s[i])
}

/// The value of the decimal digits `s`.
pub open spec fn digits_value(s: Seq<char>) -> nat
    decreases s.len(),
{
    if s.len() == 0 {
        0
    } else {
        (digits_value(s.drop_last()) * 10 + (s.last() as int - '0' as int)) as nat
    }
}

/// The number that `s` writes: decimal digits behind an optional `+`.
/// `None` if `s` is not of that form or the number exceeds `max`.
pub open spec fn unsigned_value(s: Seq<char>, max: nat) -> Option<nat> {
    let digits = if s.len() > 0 && s[0] == '+' {
        s.skip(1)
    } else {
        s
    };
    if is_number(digits) && digits_value(digits) <= max {
        Some(digits_value(digits))
    } else {
        None
    }
}

/// The number that `s` writes: decimal digits behind an optional `+` or `-`.
/// `None` if `s` is not of that form or the number does not fit in an `i64`.
pub open spec fn signed_value(s: Seq<char>) -> Option<int> {
    if s.len() > 0 && s[0] == '-' {
        if is_number(s.skip(1)) && -digits_value(s.skip(1)) >= i64::MIN {
            Some(-digits_value(s.skip(1)))
        } else {
            None
        }
    } else {
        match unsigned_value(s, i64::MAX as nat) {
            Some(n) => Some(n as int),
            None => None,
        }
    }
}

/// The digit with value `d`, as a text.
fn digit_text(d: u64) -> (text: &'static str)
    requires
        d < 10,
    ensures
        text@ == seq![digit(d as nat)],
{
    proof {
        reveal_strlit("0");
        reveal_strlit("1");
        reveal_strlit("2");
        reveal_strlit("3");
        reveal_strlit("4");
        reveal_strlit("5");
        reveal_strlit("6");
        reveal_strlit("7");
        reveal_strlit("8");
        reveal_strlit("9");
    }
    if d == 0 {
        "0"
    } else if d == 1 {
        "1"
    } else if d == 2 {
        "2"
    } else if d == 3 {
        "3"
    } else if d == 4 {
        "4"
    } else if d == 5 {
        "5"
    } else if d == 6 {
        "6"
    } else if d == 7 {
        "7"
    } else if d == 8 {
        "8"
    } else {
        "9"
    }
}

/// Writes `n` in decimal.
pub fn decimal_text(n: u64) -> (text: String)
    ensures
        text@ == decimal(n as nat),
    decreases n,
{
    if n < 10 {
        digit_text(n).to_owned()
    } else {
        let mut text = decimal_text(n / 10);
        let ghost front = text@;
        text.append(digit_text(n % 10));
        assert(text@ == front.push(digit((n % 10) as nat)));
        text
    }
}

/// Writes `n` in decimal, with two digits at least.
pub fn two_digit_text(n: u32) -> (text: String)
    ensures
        text@ == two_digits(n as nat),
{
    if n < 10 {
        let mut text = "0".to_owned();
        text.append(decimal_text(n as u64).as_str());
        text
    } else {
        decimal_text(n as u64)
    }
}

/// More digits never make a smaller number.
proof fn lemma_digits_grow(s: Seq<char>, k: int)
    requires
        is_number(s),
        0 <= k <= s.len(),
    ensures
        digits_value(s.take(k)) <= digits_value(s),
    decreases s.len() - k,
{
    if k == s.len() {
        assert(s.take(k) == s);
    } else if s.len() == 1 {
    } else {
        let shorter = s.drop_last();
        lemma_digits_grow(shorter, k);
        assert(shorter.take(k) == s.take(k));
        assert(is_digit(s.last()));
    }
}

/// Reads the decimal digits of `chars` from position `from` on, up to the value `max`.
fn read_digits(chars: &Vec<char>, from: usize, max: u64) -> (value: Option<u64>)
    requires
        from <= chars.len(),
    ensures
        ({
            let digits = chars@.skip(from as int);
            match value {
                Some(v) => is_number(digits) && v == digits_value(digits) && v <= max,
                None => !is_number(digits) || digits_value(digits) > max,
            }
        }),
{
    let ghost digits = chars@.skip(from as int);
    if from == chars.len() {
        return None;
    }
    let mut i: usize = from;
    let mut value: u64 = 0;
    while i < chars.len()
        invariant
            from <= i <= chars.len(),
            digits == chars@.skip(from as int),
            value == digits_value(digits.take(i - from)),
            value <= max,
            forall|k: int| 0 <= k < i - from ==> is_digit(#[trigger] digits[k]),
        decreases chars.len() - i,
    {
        let c: char = chars[i];
        let ghost next = digits.take(i - from + 1);
        assert(next.drop_last() == digits.take(i - from));
        assert(next.last() == c);
        assert(digits[i - from] == c);
        if c < '0' || c > '9' {
            return None;
        }
        let d: u64 = (c as u32 - '0' as u32) as u64;
        let wide: u128 = value as u128 * 10 + d as u128;
        if wide > max as u128 {
            proof {
                if is_number(digits) {
                    lemma_digits_grow(digits, i - from + 1);
                }
            }
            return None;
        }
        value = wide as u64;
        i = i + 1;
    }
    assert(digits.take(i - from) == digits);
    Some(value)
}

/// Reads decimal digits behind an optional `+`.
pub fn read_unsigned(s: &str, max: u64) -> (value: Option<u64>)
    ensures
        match value {
            Some(v) => unsigned_value(s@, max as nat) == Some(v as nat),
            None => unsigned_value(s@, max as nat) is None,
        },
{
    let chars = characters(s);
    if chars.len() > 0 && chars[0] == '+' {
        read_digits(&chars, 1, max)
    } else {
        assert(chars@.skip(0) == s@);
        read_digits(&chars, 0, max)
    }
}

/// Reads a `u64`: decimal digits behind an optional `+`.
pub fn read_u64(s: &str) -> (value: Option<u64>)
    ensures
        match value {
            Some(v) => unsigned_value(s@, u64::MAX as nat) == Some(v as nat),
            None => unsigned_value(s@, u64::MAX as nat) is None,
        },
{
    read_unsigned(s, u64::MAX)
}

/// Reads a `u32`: decimal digits behind an optional `+`.
pub fn read_u32(s: &str) -> (value: Option<u32>)
    ensures
        match value {
            Some(v) => unsigned_value(s@, u32::MAX as nat) == Some(v as nat),
            None => unsigned_value(s@, u32::MAX as nat) is None,
        },
{
    match read_unsigned(s, u32::MAX as u64) {
        Some(v) => Some(v as u32),
        None => None,
    }
}

/// Reads an `i64`: decimal digits behind an optional `+` or `-`.
pub fn read_i64(s: &str) -> (value: Option<i64>)
    ensures
        match value {
            Some(v) => signed_value(s@) == Some(v as int),
            None => signed_value(s@) is None,
        },
{
    let chars = characters(s);
    if chars.len() > 0 && chars[0] == '-' {
        match read_digits(&chars, 1, 0x8000_0000_0000_0000) {
            Some(v) => {
                if v == 0x8000_0000_0000_0000 {
                    Some(i64::MIN)
                } else {
                    Some(-(v as i64))
                }
            },
            None => None,
        }
    } else {
        match read_unsigned(s, 0x7fff_ffff_ffff_ffff) {
            Some(v) => Some(v as i64),
            None => None,
        }
    }
}

/// What is written in decimal reads back as the same number.
pub proof fn law_decimal_reads_back(n: nat, max: nat)
    requires
        n <= max,
    ensures
        unsigned_value(decimal(n), max) == Some(n),
{
    lemma_decimal(n);
    assert(is_digit(decimal(n)[0]));
}

/// `decimal` writes digits only, and their value is the number written.
pub proof fn lemma_decimal(n: nat)
    ensures
        is_number(decimal(n)),
        digits_value(decimal(n)) == n,
    decreases n,
{
    if n < 10 {
        let s = seq![digit(n)];
        assert(s.drop_last() == Seq::<char>::empty());
        assert(digits_value(s.drop_last()) == 0);
    } else {
        lemma_decimal(n / 10);
        let front = decimal(n / 10);
        assert(decimal(n).drop_last() == front);
        assert(decimal(n).last() == digit(n % 10));
        assert forall|i: int| 0 <= i < decimal(n).len() implies is_digit(#[trigger] decimal(n)[i]) by {
            if i < front.len() {
                assert(decimal(n)[i] == front[i]);
            }
        }
    }
}

/// A digit more at the end makes the number ten times as large and adds the digit, as long as
/// it stays within the limit. A `+` in front makes no difference.
pub proof fn law_digits_count_by_tens(s: Seq<char>, d: nat, max: nat)
    requires
        is_number(s),
        d < 10,
    ensures
        ({
            let longer = s.push(digit(d));
            let value = digits_value(s) * 10 + d;
            &&& unsigned_value(longer, max) == (if value <= max {
                Some(value)
            } else {
                None
            })
            &&& unsigned_value(seq!['+'] + longer, max) == unsigned_value(longer, max)
        }),
        digits_value(seq![digit(d)]) == d,
        is_number(s.push(digit(d))),
{
    let longer = s.push(digit(d));
    assert(longer.drop_last() == s);
    assert(longer.last() == digit(d));
    assert(digit(d) as int == '0' as int + d);
    assert forall|i: int| 0 <= i < longer.len() implies is_digit(#[trigger] longer[i]) by {
        if i < s.len() {
            assert(longer[i] == s[i]);
        }
    }
    assert(is_digit(longer[0]));
    assert((seq!['+'] + longer).skip(1) == longer);
    let one = seq![digit(d)];
    assert(one.drop_last() == Seq::<char>::empty());
    assert(digits_value(one.drop_last()) == 0);
}

/// A text with a character that is no digit, but for one sign in front, writes no number, nor
/// does one without digits.
pub proof fn law_no_number_without_digits(s: &str, at: int, value: Option<u64>, signed: Option<i64>)
    requires
        call_ensures(read_u64, (s,), value),
        call_ensures(read_i64, (s,), signed),
    ensures
        s@.len() == 0 ==> value is None && signed is None,
        s@.len() == 1 && !('0' <= s@[0] <= '9') ==> value is None && signed is None,
        0 <= at < s@.len() && !('0' <= s@[at] <= '9') && at > 0 ==> value is None && signed
            is None,
        s@.len() > 0 && !('0' <= s@[0] <= '9') && s@[0] != '+' ==> value is None,
        s@.len() > 0 && !('0' <= s@[0] <= '9') && s@[0] != '+' && s@[0] != '-' ==> signed is None,
{
    let rest = s@.skip(1);
    if 0 < at < s@.len() {
        assert(rest[at - 1] == s@[at]);
    }
    if s@.len() == 1 {
        assert(rest.len() == 0);
    }
    if s@.len() > 0 {
        assert(s@[0] == s@.first());
    }
}

/// A number behind a `-` is the negative of the number, as far as that fits; one behind a `+`
/// or nothing is the number.
pub proof fn law_minus_makes_negative(digits: Seq<char>)
    requires
        is_number(digits),
    ensures
        digits_value(digits) <= 9_223_372_036_854_775_808 ==> signed_value(seq!['-'] + digits)
            == Some(-digits_value(digits)),
        digits_value(digits) > 9_223_372_036_854_775_808 ==> signed_value(seq!['-'] + digits)
            is None,
        digits_value(digits) <= 9_223_372_036_854_775_807 ==> signed_value(digits) == Some(
            digits_value(digits) as int,
        ) && signed_value(seq!['+'] + digits) == Some(digits_value(digits) as int),
        digits_value(digits) > 9_223_372_036_854_775_807 ==> signed_value(digits) is None
            && signed_value(seq!['+'] + digits) is None,
{
    assert((seq!['-'] + digits).skip(1) == digits);
    assert((seq!['+'] + digits).skip(1) == digits);
    assert(is_digit(digits[0]));
}

/// Written numbers are digits without a needless zero in front; with two digits at least, a
/// zero comes in front of a single digit. Either way they read back.
pub proof fn law_written_numbers(
    n: u32,
    long: u64,
    text: String,
    two: String,
    value: Option<u64>,
    back: &str,
)
    requires
        call_ensures(decimal_text, (long,), text),
        call_ensures(two_digit_text, (n,), two),
        back@ == text@,
        call_ensures(read_u64, (back,), value),
    ensures
        value == Some(long),
        is_number(text@),
        text@.len() > 1 ==> text@[0] != '0',
        long < 10 <==> text@.len() == 1,
        two@.len() >= 2,
        is_number(two@),
        digits_value(two@) == n,
        n < 10 ==> two@.len() == 2 && two@[0] == '0',
        n >= 10 ==> two@[0] != '0',
{
    reveal_strlit("0");
    lemma_decimal(long as nat);
    lemma_decimal(n as nat);
    law_decimal_reads_back(long as nat, u64::MAX as nat);
    lemma_no_leading_zero(long as nat);
    lemma_no_leading_zero(n as nat);
    if n < 10 {
        let s = decimal(n as nat);
        let all = two@;
        assert(all == seq!['0'] + s);
        assert(s == seq![digit(n as nat)]);
        assert(all.drop_last() == seq!['0']);
        assert(seq!['0'].drop_last() == Seq::<char>::empty());
        assert(digits_value(Seq::<char>::empty()) == 0);
        assert(digits_value(seq!['0']) == 0);
        assert(all.last() == digit(n as nat));
        assert(is_digit(s[0]));
    }
}

/// A number of several digits does not begin with zero.
proof fn lemma_no_leading_zero(n: nat)
    ensures
        decimal(n).len() >= 1,
        n < 10 <==> decimal(n).len() == 1,
        n > 0 ==> decimal(n)[0] != '0',
    decreases n,
{
    if n >= 10 {
        lemma_no_leading_zero(n / 10);
        assert(decimal(n)[0] == decimal(n / 10)[0]);
    } else if n > 0 {
        assert(decimal(n)[0] == digit(n));
    }
}

} // verus!
