//! Numbers in decimal notation.

use vstd::prelude::*;
use vstd::string::*;

use crate::text::chars_of;

verus! {

/// The character of a decimal digit.
pub open spec fn digit(d: nat) -> char {
    (48 + d) as char
}

pub open spec fn is_digit(c: char) -> bool {
    '0' <= c <= '9'
}

pub open spec fn all_digits(s: Seq<char>) -> bool {
    forall|i: int| 0 <= i < s.len() ==> is_digit(#[trigger] s[i])
}

/// `n` in decimal notation, without leading zeros.
pub open spec fn decimal(n: nat) -> Seq<char>
    decreases n,
{
    if n < 10 {
        seq![digit(n)]
    } else {
        decimal(n / 10).push(digit(n % 10))
    }
}

/// The number that a sequence of digits denotes.
pub open spec fn value(s: Seq<char>) -> nat
    decreases s.len(),
{
    if s.len() == 0 {
        0
    } else {
        (value(s.drop_last()) * 10 + (s.last() as int - 48)) as nat
    }
}

/// How many digits `s` begins with.
pub open spec fn leading_digits(s: Seq<char>) -> nat
    decreases s.len(),
{
    if s.len() > 0 && is_digit(s.first()) {
        1 + leading_digits(s.drop_first())
    } else {
        0
    }
}

/// Why a text is not a number.
#[derive(Clone, Copy, Debug, PartialEq, Eq, Structural)]
pub enum NumberError {
    Empty,
    InvalidDigit,
    TooLarge,
}

impl NumberError {
    /// The error in words.
    pub open spec fn text(self) -> Seq<char> {
        match self {
            NumberError::Empty => "cannot parse integer from empty string"@,
            NumberError::InvalidDigit => "invalid digit found in string"@,
            NumberError::TooLarge => "number too large to fit in target type"@,
        }
    }

    /// The error in words.
    pub fn message(&self) -> (m: String)
        ensures
            m@ == self.text(),
    {
        match self {
            NumberError::Empty => "cannot parse integer from empty string".to_owned(),
            NumberError::InvalidDigit => "invalid digit found in string".to_owned(),
            NumberError::TooLarge => "number too large to fit in target type".to_owned(),
        }
    }
}

/// `s` without a plus sign at its start.
pub open spec fn unsigned(s: Seq<char>) -> Seq<char> {
    if s.len() > 0 && s.first() == '+' {
        s.drop_first()
    } else {
        s
    }
}

/// The 16-bit number that `s` denotes: an optional plus sign, then one digit or more and
/// nothing else. Digits at the start that already exceed the range count before a
/// character that is no digit.
pub open spec fn number(s: Seq<char>) -> Result<u16, NumberError> {
    let body = unsigned(s);
    let digits = body.take(leading_digits(body) as int);
    if s.len() == 0 {
        Err(NumberError::Empty)
    } else if value(digits) > 65535 {
        Err(NumberError::TooLarge)
    } else if digits.len() == 0 || digits.len() < body.len() {
        Err(NumberError::InvalidDigit)
    } else {
        Ok(value(digits) as u16)
    }
}

proof fn lemma_leading_digits(s: Seq<char>)
    ensures
        leading_digits(s) <= s.len(),
        all_digits(s.take(leading_digits(s) as int)),
        leading_digits(s) < s.len() ==> !is_digit(s[leading_digits(s) as int]),
    decreases s.len(),
{
    if s.len() > 0 && is_digit(s.first()) {
        let rest = s.drop_first();
        lemma_leading_digits(rest);
        let n = leading_digits(s) as int;
        assert forall|i: int| 0 <= i < n implies is_digit(#[trigger] s.take(n)[i]) by {
            if i > 0 {
                assert(s.take(n)[i] == rest.take(n - 1)[i - 1]);
            }
        }
    }
}

/// Digits up to a place that holds none are all the leading digits.
proof fn lemma_leading_digits_is(s: Seq<char>, n: int)
    requires
        0 <= n <= s.len(),
        forall|i: int| 0 <= i < n ==> is_digit(#[trigger] s[i]),
        n < s.len() ==> !is_digit(s[n]),
    ensures
        leading_digits(s) == n,
{
    lemma_leading_digits(s);
    let m = leading_digits(s) as int;
    if m > n {
        assert(is_digit(s.take(m)[n]));
    }
}

/// More digits never denote a smaller number.
proof fn lemma_value_grows(s: Seq<char>, m: int, n: int)
    requires
        0 <= m <= n <= s.len(),
        forall|i: int| 0 <= i < n ==> is_digit(#[trigger] s[i]),
    ensures
        value(s.take(m)) <= value(s.take(n)),
    decreases n - m,
{
    if m < n {
        lemma_value_grows(s, m, n - 1);
        assert(s.take(n).drop_last() =~= s.take(n - 1));
        assert(is_digit(s[n - 1]));
    }
}

/// Decimal notation is made of digits, and denotes the number that it was made from.
pub proof fn lemma_decimal(n: nat)
    ensures
        decimal(n).len() > 0,
        all_digits(decimal(n)),
        value(decimal(n)) == n,
        decimal(n).first() == '0' ==> n == 0,
    decreases n,
{
    if n >= 10 {
        lemma_decimal(n / 10);
        assert(decimal(n).drop_last() =~= decimal(n / 10));
    } else {
        assert(decimal(n).drop_last() =~= Seq::<char>::empty());
        assert(value(Seq::<char>::empty()) == 0);
    }
}

/// Digits without a leading zero are the decimal notation of the number they denote.
pub proof fn lemma_value_decimal(s: Seq<char>)
    requires
        s.len() > 0,
        all_digits(s),
        s.first() == '0' ==> s.len() == 1,
    ensures
        decimal(value(s)) == s,
    decreases s.len(),
{
    let front = s.drop_last();
    assert(is_digit(s[s.len() - 1]));
    if s.len() == 1 {
        assert(front =~= Seq::<char>::empty());
        assert(value(front) == 0);
        assert(decimal(value(s)) =~= s);
    } else {
        assert(front.first() == s.first());
        assert forall|i: int| 0 <= i < front.len() implies is_digit(#[trigger] front[i]) by {
            assert(front[i] == s[i]);
        }
        lemma_value_decimal(front);
        lemma_decimal(value(front));
        if value(front) == 0 {
            assert(decimal(0)[0] == '0');
            assert(front[0] == '0');
        }
        let d = s.last() as int - 48;
        assert(value(s) == value(front) * 10 + d);
        assert(value(s) / 10 == value(front));
        assert(value(s) % 10 == d);
        assert(decimal(value(s)) =~= front.push(s.last()));
    }
}

/// A number that is written in decimal notation is read back as it was.
pub proof fn decimal_is_read_back(n: u16)
    ensures
        number(decimal(n as nat)) == Ok::<u16, NumberError>(n),
{
    let s = decimal(n as nat);
    lemma_decimal(n as nat);
    assert(is_digit(s[0]));
    lemma_leading_digits_is(s, s.len() as int);
    assert(s.take(s.len() as int) =~= s);
}

/// Tells that `s` is one decimal digit or more, and nothing else.
pub open spec fn is_digits(s: Seq<char>) -> bool {
    s.len() > 0 && forall|i: int| 0 <= i < s.len() ==> '0' <= #[trigger] s[i] <= '9'
}

/// Each further digit multiplies the number that digits denote by ten and adds its own value.
pub proof fn digits_count_by_their_place(s: Seq<char>, c: char)
    requires
        '0' <= c <= '9',
    ensures
        value(Seq::<char>::empty()) == 0,
        value(s.push(c)) == 10 * value(s) + (c as int - '0' as int),
{
    assert(s.push(c).drop_last() =~= s);
    assert(value(Seq::<char>::empty()) == 0);
}

/// A number in decimal notation is made of digits, has no leading zero, and denotes the
/// number.
pub proof fn decimal_notation_denotes_the_number(n: nat)
    ensures
        is_digits(decimal(n)),
        value(decimal(n)) == n,
        decimal(n)[0] == '0' ==> n == 0 && decimal(n).len() == 1,
{
    lemma_decimal(n);
    assert(forall|i: int| 0 <= i < decimal(n).len() ==> is_digit(#[trigger] decimal(n)[i]));
    assert(decimal(0) =~= seq!['0']);
}

/// A text is a number where it is digits, with a plus sign before them or without one, that
/// denote at most 65535. Digits that denote more are too large.
pub proof fn digits_are_read(s: Seq<char>)
    requires
        is_digits(s),
    ensures
        value(s) <= 65535 ==> number(s) == Ok::<u16, NumberError>(value(s) as u16),
        value(s) <= 65535 ==> number(seq!['+'] + s) == Ok::<u16, NumberError>(value(s) as u16),
        value(s) > 65535 ==> number(s) == Err::<u16, NumberError>(NumberError::TooLarge),
        value(s) > 65535 ==> number(seq!['+'] + s) == Err::<u16, NumberError>(
            NumberError::TooLarge,
        ),
{
    let signed = seq!['+'] + s;
    assert(signed.drop_first() =~= s);
    assert('0' <= s[0] <= '9');
    assert forall|i: int| 0 <= i < s.len() implies is_digit(#[trigger] s[i]) by {
        assert('0' <= s[i] <= '9');
    }
    lemma_leading_digits_is(s, s.len() as int);
    assert(s.take(s.len() as int) =~= s);
}

/// A text in which something else follows digits, or stands in their place, is no number. It
/// is too large where the digits before that already are.
pub proof fn other_text_is_no_number(digits: Seq<char>, c: char, rest: Seq<char>)
    requires
        digits.len() > 0 ==> is_digits(digits),
        !('0' <= c <= '9'),
    ensures
        ({
            let refusal = if value(digits) > 65535 {
                NumberError::TooLarge
            } else {
                NumberError::InvalidDigit
            };
            let s = digits.push(c) + rest;
            &&& digits.len() > 0 || c != '+' ==> number(s) == Err::<u16, NumberError>(refusal)
            &&& number(seq!['+'] + s) == Err::<u16, NumberError>(refusal)
        }),
        number(Seq::<char>::empty()) == Err::<u16, NumberError>(NumberError::Empty),
        number(seq!['+']) == Err::<u16, NumberError>(NumberError::InvalidDigit),
{
    let s = digits.push(c) + rest;
    let signed = seq!['+'] + s;
    assert(signed.drop_first() =~= s);
    assert forall|i: int| 0 <= i < digits.len() implies is_digit(#[trigger] s[i]) by {
        assert(s[i] == digits[i]);
        assert('0' <= digits[i] <= '9');
    }
    lemma_leading_digits_is(s, digits.len() as int);
    assert(s.take(digits.len() as int) =~= digits);
    if digits.len() > 0 {
        assert(is_digit(s[0]));
    }
    let none = Seq::<char>::empty();
    assert(seq!['+'].drop_first() =~= none);
    assert(none.take(0) =~= none);
    assert(value(none) == 0);
}

/// A number without a sign is digits, and their value is the number.
pub proof fn lemma_number_is_digits(s: Seq<char>)
    requires
        number(s) is Ok,
        s.first() != '+',
    ensures
        is_digits(s),
        value(s) <= 65535,
        number(s) == Ok::<u16, NumberError>(value(s) as u16),
{
    let n = leading_digits(s) as int;
    lemma_leading_digits(s);
    assert(s.take(n) =~= s);
    assert forall|i: int| 0 <= i < s.len() implies '0' <= #[trigger] s[i] <= '9' by {
        assert(is_digit(s.take(n)[i]));
    }
}

/// The reasons why a text is not a number, in words.
pub proof fn number_errors_in_words()
    ensures
        NumberError::Empty.text() == "cannot parse integer from empty string"@,
        NumberError::InvalidDigit.text() == "invalid digit found in string"@,
        NumberError::TooLarge.text() == "number too large to fit in target type"@,
{
}

fn digit_text(d: usize) -> (t: &'static str)
    requires
        d < 10,
    ensures
        t@ == seq![digit(d as nat)],
{
    proof {
        reveal_strlit("0");
        reveal_strlit("1");
        reveal_strlit("2");
        reveal_strlit("3");
        reveal_strlit("4");
        reveal_strlit("5");
        reveal_strlit("6");
        reveal_strlit("7");
        reveal_strlit("8");
        reveal_strlit("9");
    }
    match d {
        0 => "0",
        1 => "1",
        2 => "2",
        3 => "3",
        4 => "4",
        5 => "5",
        6 => "6",
        7 => "7",
        8 => "8",
        _ => "9",
    }
}

/// `n` in decimal notation.
pub fn decimal_of(n: usize) -> (s: String)
    ensures
        s@ == decimal(n as nat),
    decreases n,
{
    if n < 10 {
        digit_text(n).to_owned()
    } else {
        let mut s: String = decimal_of(n / 10);
        s.append(digit_text(n % 10));
        s
    }
}

/// Reads a 16-bit number in decimal notation.
pub fn parse_number(s: &str) -> (res: Result<u16, NumberError>)
    ensures
        res == number(s@),
{
    let chars: Vec<char> = chars_of(s);
    if chars.len() == 0 {
        return Err(NumberError::Empty);
    }
    let start: usize = if chars[0] == '+' {
        1
    } else {
        0
    };
    let ghost body = unsigned(s@);
    let mut acc: u32 = 0;
    let mut i: usize = start;
    while i < chars.len()
        invariant
            chars@ == s@,
            chars.len() > 0,
            body == unsigned(s@),
            body =~= s@.skip(start as int),
            start <= 1,
            start <= i <= chars.len(),
            acc <= 65535,
            acc == value(body.take(i - start)),
            forall|j: int| 0 <= j < i - start ==> is_digit(#[trigger] body[j]),
        decreases chars.len() - i,
    {
        let c: char = chars[i];
        let ghost at = i - start;
        assert(body[at] == c);
        if !('0' <= c && c <= '9') {
            proof {
                lemma_leading_digits_is(body, at);
            }
            return Err(NumberError::InvalidDigit);
        }
        assert(body.take(at + 1).drop_last() =~= body.take(at));
        acc = acc * 10 + (c as u32 - 48);
        assert(acc == value(body.take(at + 1)));
        if acc > 65535 {
            proof {
                lemma_leading_digits(body);
                let n = leading_digits(body) as int;
                if n <= at {
                    assert(!is_digit(body[n]));
                }
                assert forall|j: int| 0 <= j < n implies is_digit(#[trigger] body[j]) by {
                    assert(body[j] == body.take(n)[j]);
                }
                lemma_value_grows(body, at + 1, n);
            }
            return Err(NumberError::TooLarge);
        }
        i = i + 1;
    }
    proof {
        lemma_leading_digits_is(body, body.len() as int);
    }
    if chars.len() == start {
        Err(NumberError::InvalidDigit)
    } else {
        Ok(acc as u16)
    }
}

} // verus!
